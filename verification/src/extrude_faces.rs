use vstd::prelude::*;
use crate::attribute::Point3;
use crate::edit::Edit;
use crate::error::{SMeshError, SMeshResult};
use crate::graph::Graph;
use crate::mesh::SMesh;
use crate::mesh_elements::{FaceId, HalfedgeId, VertexId};
use crate::selection::{has_face, has_vertex, seq_add_all};
use crate::topological_operations::ok_of;
use crate::world::{corner_count, faces_view, fresh_vertices, polygons, World};

verus! {

/// The halfedges of the selected faces sorted by what lies on their other
/// side.
pub struct Sorting {
    /// Those with no selected face on the other side.
    pub boundary: Seq<HalfedgeId>,
    /// Both ends of each of those.
    pub ends: Seq<VertexId>,
    /// Those with a selected face on the other side.
    pub inner: Seq<HalfedgeId>,
}

/// What the extrusion of a set of faces reads before it changes anything.
pub struct FacesSite {
    /// The corners of the faces, each once, in the order in which they are
    /// met.
    pub uniq: Seq<VertexId>,
    /// Their positions.
    pub ps: Seq<Point3>,
    /// The corners of each face.
    pub rings: Seq<Seq<VertexId>>,
    pub sorting: Sorting,
}

/// The copy of the vertex `v`: the entry of `news` at the place where `v`
/// first stands in `uniq` from the `i`-th place on.
pub open spec fn copy_of(uniq: Seq<VertexId>, news: Seq<VertexId>, v: VertexId, i: int) -> Option<
    VertexId,
>
    decreases uniq.len() - i,
{
    if i < 0 || i >= uniq.len() || i >= news.len() {
        None
    } else if uniq[i] == v {
        Some(news[i])
    } else {
        copy_of(uniq, news, v, i + 1)
    }
}

/// The copies of the vertices from the `j`-th on, after `acc`; an error for
/// the first vertex that has no copy.
pub open spec fn copies_of(
    uniq: Seq<VertexId>,
    news: Seq<VertexId>,
    vs: Seq<VertexId>,
    j: int,
    acc: Seq<VertexId>,
) -> SMeshResult<Seq<VertexId>>
    decreases vs.len() - j,
{
    if j < 0 || j >= vs.len() {
        Ok(acc)
    } else {
        match copy_of(uniq, news, vs[j], 0) {
            None => Err(SMeshError::VertexNotFound(vs[j])),
            Some(c) => copies_of(uniq, news, vs, j + 1, acc.push(c)),
        }
    }
}

/// The faces over the copies, one for each list of corners from the `i`-th
/// on, after `acc`.
pub open spec fn top_polygons(
    uniq: Seq<VertexId>,
    news: Seq<VertexId>,
    rings: Seq<Seq<VertexId>>,
    i: int,
    acc: Seq<Seq<VertexId>>,
) -> SMeshResult<Seq<Seq<VertexId>>>
    decreases rings.len() - i,
{
    if i < 0 || i >= rings.len() {
        Ok(acc)
    } else {
        match copies_of(uniq, news, rings[i], 0, Seq::empty()) {
            Err(e) => Err(e),
            Ok(top) => top_polygons(uniq, news, rings, i + 1, acc.push(top)),
        }
    }
}

impl Graph {
    /// The corners of the faces from the `i`-th on added to `acc`, each
    /// once.
    pub open spec fn gather_corners(self, faces: Seq<FaceId>, i: int, acc: Seq<VertexId>) -> Seq<
        VertexId,
    >
        decreases faces.len() - i,
    {
        if i < 0 || i >= faces.len() {
            acc
        } else {
            self.gather_corners(faces, i + 1, seq_add_all(acc, self.face_vertices(faces[i]), 0))
        }
    }

    /// The corners of each face.
    pub open spec fn rings_of(self, faces: Seq<FaceId>) -> Seq<Seq<VertexId>> {
        Seq::new(faces.len(), |i: int| self.face_vertices(faces[i]))
    }

    /// Sorts one halfedge of a selected face.
    pub open spec fn sort_halfedge(self, selected: Seq<FaceId>, h: HalfedgeId, st: Sorting) -> SMeshResult<
        Sorting,
    > {
        match self.he_opposite(h) {
            Err(e) => Err(e),
            Ok(o) => match ok_of(self.he_face(o)) {
                Some(f) if selected.contains(f) => Ok(Sorting { inner: st.inner.push(h), ..st }),
                _ => match self.src_vertex(h) {
                    Err(e) => Err(e),
                    Ok(src) => match self.he_vertex(h) {
                        Err(e) => Err(e),
                        Ok(dst) => Ok(
                            Sorting {
                                boundary: st.boundary.push(h),
                                ends: st.ends.push(src).push(dst),
                                ..st
                            },
                        ),
                    },
                },
            },
        }
    }

    /// Sorts the halfedges from the `j`-th on.
    pub open spec fn sort_ring(self, selected: Seq<FaceId>, hs: Seq<HalfedgeId>, j: int, st: Sorting) -> SMeshResult<
        Sorting,
    >
        decreases hs.len() - j,
    {
        if j < 0 || j >= hs.len() {
            Ok(st)
        } else {
            match self.sort_halfedge(selected, hs[j], st) {
                Err(e) => Err(e),
                Ok(next) => self.sort_ring(selected, hs, j + 1, next),
            }
        }
    }

    /// Sorts the halfedges of the selected faces from the `i`-th face on.
    pub open spec fn sort_faces(self, selected: Seq<FaceId>, i: int, st: Sorting) -> SMeshResult<
        Sorting,
    >
        decreases selected.len() - i,
    {
        if i < 0 || i >= selected.len() {
            Ok(st)
        } else {
            match self.sort_ring(selected, self.face_halfedges(selected[i]), 0, st) {
                Err(e) => Err(e),
                Ok(next) => self.sort_faces(selected, i + 1, next),
            }
        }
    }

    /// Those of the vertices from the `j`-th on that are not among `keep`,
    /// after `acc`.
    pub open spec fn others(vs: Seq<VertexId>, keep: Seq<VertexId>, j: int, acc: Seq<VertexId>) -> Seq<
        VertexId,
    >
        decreases vs.len() - j,
    {
        if j < 0 || j >= vs.len() {
            acc
        } else {
            Graph::others(
                vs,
                keep,
                j + 1,
                if keep.contains(vs[j]) {
                    acc
                } else {
                    acc.push(vs[j])
                },
            )
        }
    }

    /// The corners of the faces from the `i`-th on that are not among
    /// `keep`, after `acc`: the vertices inside the selection.
    pub open spec fn doomed(self, faces: Seq<FaceId>, keep: Seq<VertexId>, i: int, acc: Seq<VertexId>) -> Seq<
        VertexId,
    >
        decreases faces.len() - i,
    {
        if i < 0 || i >= faces.len() {
            acc
        } else {
            self.doomed(
                faces,
                keep,
                i + 1,
                Graph::others(self.face_vertices(faces[i]), keep, 0, acc),
            )
        }
    }

    /// The walls over the halfedges from the `i`-th on, after `acc`: each
    /// runs along the halfedge and back over the copies of its ends.
    pub open spec fn side_quads(
        self,
        hs: Seq<HalfedgeId>,
        uniq: Seq<VertexId>,
        news: Seq<VertexId>,
        i: int,
        acc: Seq<Seq<VertexId>>,
    ) -> SMeshResult<Seq<Seq<VertexId>>>
        decreases hs.len() - i,
    {
        if i < 0 || i >= hs.len() {
            Ok(acc)
        } else {
            match self.src_vertex(hs[i]) {
                Err(e) => Err(e),
                Ok(src) => match self.he_vertex(hs[i]) {
                    Err(e) => Err(e),
                    Ok(dst) => match copy_of(uniq, news, src, 0) {
                        None => Err(SMeshError::VertexNotFound(src)),
                        Some(src_new) => match copy_of(uniq, news, dst, 0) {
                            None => Err(SMeshError::VertexNotFound(dst)),
                            Some(dst_new) => self.side_quads(
                                hs,
                                uniq,
                                news,
                                i + 1,
                                acc.push(seq![src, dst, dst_new, src_new]),
                            ),
                        },
                    },
                },
            }
        }
    }

    /// Constructing the walls and then the tops gives the graph `after` and,
    /// as the result `r`, the tops.
    pub open spec fn shell_made(
        self,
        quads: Seq<Seq<VertexId>>,
        tops: Seq<Seq<VertexId>>,
        after: Graph,
        r: SMeshResult<Seq<FaceId>>,
    ) -> bool {
        exists|fs: SMeshResult<Seq<FaceId>>| #[trigger]
            self.faces_made(quads + tops, 0, Seq::empty(), after, fs) && r == (match fs {
                Ok(ids) => Ok(ids.skip(quads.len() as int)),
                Err(e) => Err(e),
            })
    }
}

impl Edit {
    /// `delete_vertex` for each vertex from the `k`-th on.
    pub open spec fn delete_vertices(self, vs: Seq<VertexId>, k: int) -> Edit
        decreases vs.len() - k,
    {
        if k < 0 || k >= vs.len() {
            self
        } else {
            let deleted = self.delete_vertex(vs[k]);
            if deleted.err is Some {
                deleted
            } else {
                deleted.delete_vertices(vs, k + 1)
            }
        }
    }

    /// `delete_only_edge` for each halfedge from the `k`-th on.
    pub open spec fn delete_only_edges(self, hs: Seq<HalfedgeId>, k: int) -> Edit
        decreases hs.len() - k,
    {
        if k < 0 || k >= hs.len() {
            self
        } else {
            let deleted = self.delete_only_edge(hs[k]);
            if deleted.err is Some {
                deleted
            } else {
                deleted.delete_only_edges(hs, k + 1)
            }
        }
    }

    /// What the extrusion of a set of faces removes: the face itself where
    /// only one is selected; then the vertices inside the selection with all
    /// that hangs on them, and the edges between two selected faces.
    pub open spec fn clear_selection(self, faces: Seq<FaceId>, sorting: Sorting) -> Edit {
        let first = if faces.len() == 1 {
            self.delete_only_face(faces[0])
        } else {
            self
        };
        if first.err is Some {
            first
        } else {
            first.delete_vertices(
                first.g.doomed(faces, sorting.ends, 0, Seq::empty()),
                0,
            ).delete_only_edges(sorting.inner, 0)
        }
    }
}

impl World {
    /// What the extrusion of a set of faces reads before it changes
    /// anything, or the reason why it cannot start.
    pub open spec fn faces_site(self, faces: Seq<FaceId>) -> SMeshResult<FacesSite> {
        let uniq = self.g.gather_corners(faces, 0, Seq::empty());
        match self.positions(uniq, 0, Seq::empty()) {
            Err(e) => Err(e),
            Ok(ps) => match self.g.sort_faces(
                faces,
                0,
                Sorting { boundary: Seq::empty(), ends: Seq::empty(), inner: Seq::empty() },
            ) {
                Err(e) => Err(e),
                Ok(sorting) => Ok(FacesSite { uniq, ps, rings: self.g.rings_of(faces), sorting }),
            },
        }
    }

    /// The extrusion of a set of faces with `news` as the copies of their
    /// corners.
    pub open spec fn faces_extruded_with(
        self,
        faces: Seq<FaceId>,
        site: FacesSite,
        news: Seq<VertexId>,
        after: World,
        r: SMeshResult<Seq<FaceId>>,
    ) -> bool {
        let w1 = self.with_copies(site.ps, news);
        let e = Edit::of(w1.g).clear_selection(faces, site.sorting);
        &&& news.len() == site.uniq.len()
        &&& fresh_vertices(self.g, news)
        &&& after.a == w1.a
        &&& (match e.err {
            Some(err) => after.g == e.g && r == Err::<Seq<FaceId>, SMeshError>(err),
            None => match e.g.side_quads(site.sorting.boundary, site.uniq, news, 0, Seq::empty()) {
                Err(err) => after.g == e.g && r == Err::<Seq<FaceId>, SMeshError>(err),
                Ok(quads) => match top_polygons(site.uniq, news, site.rings, 0, Seq::empty()) {
                    Err(err) => after.g == e.g && r == Err::<Seq<FaceId>, SMeshError>(err),
                    Ok(tops) => e.g.shell_made(quads, tops, after.g, r),
                },
            },
        })
    }

    /// The extrusion of a set of faces under some fresh identifiers.
    pub open spec fn faces_extruded_somehow(
        self,
        faces: Seq<FaceId>,
        site: FacesSite,
        after: World,
        r: SMeshResult<Seq<FaceId>>,
    ) -> bool {
        exists|news: Seq<VertexId>| #[trigger]
            self.faces_extruded_with(faces, site, news, after, r)
    }

    /// The world `after` and the result `r` are what extruding a set of
    /// faces makes of this world. Nothing is changed where a corner has no
    /// position or a halfedge of a face has no opposite. Else every corner
    /// gets a copy; what lies inside the selection is removed; a wall is
    /// built over each halfedge that has no selected face on its other side;
    /// and each face is built again over the copies. The result holds those
    /// faces.
    pub open spec fn faces_extruded(
        self,
        faces: Seq<FaceId>,
        after: World,
        r: SMeshResult<Seq<FaceId>>,
    ) -> bool {
        match self.faces_site(faces) {
            Err(e) => after == self && r == Err::<Seq<FaceId>, SMeshError>(e),
            Ok(site) => self.faces_extruded_somehow(faces, site, after, r),
        }
    }

    /// The room that the extrusion of a set of faces needs.
    pub open spec fn faces_room(self, faces: Seq<FaceId>) -> (int, int, int) {
        match self.faces_site(faces) {
            Err(_) => (0, 0, 0),
            Ok(site) => (
                site.uniq.len() as int,
                8 * site.sorting.boundary.len() + 2 * corner_count(site.rings, 0),
                (site.sorting.boundary.len() + site.rings.len()) as int,
            ),
        }
    }
}

/// The corners of a list of faces followed by another.
pub proof fn lemma_corner_count_concat(a: Seq<Seq<VertexId>>, b: Seq<Seq<VertexId>>, i: int)
    requires
        0 <= i <= a.len(),
    ensures
        corner_count(a + b, i) == corner_count(a, i) + corner_count(b, 0),
    decreases a.len() - i,
{
    if i < a.len() {
        lemma_corner_count_concat(a, b, i + 1);
        assert((a + b)[i] == a[i]);
    } else {
        lemma_corner_count_shift(a, b, 0);
    }
}

proof fn lemma_corner_count_shift(a: Seq<Seq<VertexId>>, b: Seq<Seq<VertexId>>, j: int)
    requires
        0 <= j <= b.len(),
    ensures
        corner_count(a + b, a.len() + j) == corner_count(b, j),
    decreases b.len() - j,
{
    if j < b.len() {
        lemma_corner_count_shift(a, b, j + 1);
        assert((a + b)[a.len() + j] == b[j]);
    }
}

/// The corners of lists of four.
pub proof fn lemma_corner_count_quads(a: Seq<Seq<VertexId>>, i: int)
    requires
        0 <= i <= a.len(),
        forall|k: int| 0 <= k < a.len() ==> (#[trigger] a[k]).len() == 4,
    ensures
        corner_count(a, i) == 4 * (a.len() - i),
    decreases a.len() - i,
{
    if i < a.len() {
        lemma_corner_count_quads(a, i + 1);
    }
}

/// Lists of the same lengths have the same number of corners.
pub proof fn lemma_corner_count_same(a: Seq<Seq<VertexId>>, b: Seq<Seq<VertexId>>, i: int)
    requires
        0 <= i <= a.len(),
        a.len() == b.len(),
        forall|k: int| 0 <= k < a.len() ==> (#[trigger] a[k]).len() == b[k].len(),
    ensures
        corner_count(a, i) == corner_count(b, i),
    decreases a.len() - i,
{
    if i < a.len() {
        lemma_corner_count_same(a, b, i + 1);
    }
}

fn copy_of_vertex(uniq: &Vec<VertexId>, news: &Vec<VertexId>, v: VertexId) -> (r: Option<VertexId>)
    ensures
        r == copy_of(uniq@, news@, v, 0),
{
    let mut i: usize = 0;
    while i < uniq.len() && i < news.len()
        invariant
            0 <= i <= uniq@.len(),
            copy_of(uniq@, news@, v, 0) == copy_of(uniq@, news@, v, i as int),
        decreases uniq@.len() - i,
    {
        if uniq[i] == v {
            return Some(news[i]);
        }
        i += 1;
    }
    None
}

fn copies_of_vertices(uniq: &Vec<VertexId>, news: &Vec<VertexId>, vs: &Vec<VertexId>) -> (r:
    SMeshResult<Vec<VertexId>>)
    ensures
        match r {
            Ok(cs) => copies_of(uniq@, news@, vs@, 0, Seq::empty()) == Ok::<
                Seq<VertexId>,
                SMeshError,
            >(cs@) && cs@.len() == vs@.len(),
            Err(e) => copies_of(uniq@, news@, vs@, 0, Seq::empty()) == Err::<
                Seq<VertexId>,
                SMeshError,
            >(e),
        },
{
    let mut acc: Vec<VertexId> = Vec::new();
    let mut j: usize = 0;
    while j < vs.len()
        invariant
            0 <= j <= vs@.len(),
            acc@.len() == j,
            copies_of(uniq@, news@, vs@, 0, Seq::empty()) == copies_of(
                uniq@,
                news@,
                vs@,
                j as int,
                acc@,
            ),
        decreases vs@.len() - j,
    {
        match copy_of_vertex(uniq, news, vs[j]) {
            None => {
                return Err(SMeshError::VertexNotFound(vs[j]));
            },
            Some(c) => {
                acc.push(c);
            },
        }
        j += 1;
    }
    Ok(acc)
}

fn tops_of(uniq: &Vec<VertexId>, news: &Vec<VertexId>, rings: &Vec<Vec<VertexId>>) -> (r: SMeshResult<
    Vec<Vec<VertexId>>,
>)
    ensures
        match r {
            Ok(tops) => top_polygons(uniq@, news@, polygons(rings@), 0, Seq::empty()) == Ok::<
                Seq<Seq<VertexId>>,
                SMeshError,
            >(polygons(tops@)) && tops@.len() == rings@.len() && (forall|k: int|
                0 <= k < tops@.len() ==> (#[trigger] tops@[k])@.len() == rings@[k]@.len()),
            Err(e) => top_polygons(uniq@, news@, polygons(rings@), 0, Seq::empty()) == Err::<
                Seq<Seq<VertexId>>,
                SMeshError,
            >(e),
        },
{
    let mut acc: Vec<Vec<VertexId>> = Vec::new();
    let mut i: usize = 0;
    proof {
        assert(polygons(acc@) =~= Seq::<Seq<VertexId>>::empty());
    }
    while i < rings.len()
        invariant
            0 <= i <= rings@.len(),
            acc@.len() == i,
            forall|k: int| 0 <= k < i ==> (#[trigger] acc@[k])@.len() == rings@[k]@.len(),
            top_polygons(uniq@, news@, polygons(rings@), 0, Seq::empty()) == top_polygons(
                uniq@,
                news@,
                polygons(rings@),
                i as int,
                polygons(acc@),
            ),
        decreases rings@.len() - i,
    {
        let ghost before = polygons(acc@);
        proof {
            assert(polygons(rings@)[i as int] == rings@[i as int]@);
        }
        let top = copies_of_vertices(uniq, news, &rings[i])?;
        let ghost top_view = top@;
        acc.push(top);
        proof {
            assert(polygons(acc@) =~= before.push(top_view));
        }
        i += 1;
    }
    Ok(acc)
}

impl SMesh {
    fn gather_corners(&self, faces: &Vec<FaceId>) -> (uniq: Vec<VertexId>)
        ensures
            uniq@ == self.graph().gather_corners(faces@, 0, Seq::empty()),
    {
        let mut acc: Vec<VertexId> = Vec::new();
        let mut i: usize = 0;
        while i < faces.len()
            invariant
                0 <= i <= faces@.len(),
                self.graph().gather_corners(faces@, 0, Seq::empty()) == self.graph().gather_corners(
                    faces@,
                    i as int,
                    acc@,
                ),
            decreases faces@.len() - i,
        {
            let ring = self.connectivity.face_vertices(faces[i]);
            let mut j: usize = 0;
            let ghost before = acc@;
            while j < ring.len()
                invariant
                    0 <= j <= ring@.len(),
                    seq_add_all(before, ring@, 0) == seq_add_all(acc@, ring@, j as int),
                decreases ring@.len() - j,
            {
                if !has_vertex(&acc, ring[j]) {
                    acc.push(ring[j]);
                }
                j += 1;
            }
            i += 1;
        }
        acc
    }

    fn rings_of(&self, faces: &Vec<FaceId>) -> (rings: Vec<Vec<VertexId>>)
        ensures
            polygons(rings@) == self.graph().rings_of(faces@),
            rings@.len() == faces@.len(),
    {
        let mut rings: Vec<Vec<VertexId>> = Vec::new();
        let mut i: usize = 0;
        while i < faces.len()
            invariant
                0 <= i <= faces@.len(),
                rings@.len() == i,
                forall|k: int|
                    0 <= k < i ==> (#[trigger] rings@[k])@ == self.graph().face_vertices(faces@[k]),
            decreases faces@.len() - i,
        {
            rings.push(self.connectivity.face_vertices(faces[i]));
            i += 1;
        }
        proof {
            assert(polygons(rings@) =~= self.graph().rings_of(faces@));
        }
        rings
    }

    fn sort_faces(&self, faces: &Vec<FaceId>) -> (r: SMeshResult<
        (Vec<HalfedgeId>, Vec<VertexId>, Vec<HalfedgeId>),
    >)
        ensures
            match r {
                Ok(s) => self.graph().sort_faces(
                    faces@,
                    0,
                    Sorting { boundary: Seq::empty(), ends: Seq::empty(), inner: Seq::empty() },
                ) == Ok::<Sorting, SMeshError>(Sorting { boundary: s.0@, ends: s.1@, inner: s.2@ }),
                Err(e) => self.graph().sort_faces(
                    faces@,
                    0,
                    Sorting { boundary: Seq::empty(), ends: Seq::empty(), inner: Seq::empty() },
                ) == Err::<Sorting, SMeshError>(e),
            },
    {
        let ghost start = Sorting { boundary: Seq::empty(), ends: Seq::empty(), inner: Seq::empty() };
        let mut boundary: Vec<HalfedgeId> = Vec::new();
        let mut ends: Vec<VertexId> = Vec::new();
        let mut inner: Vec<HalfedgeId> = Vec::new();
        let mut i: usize = 0;
        while i < faces.len()
            invariant
                0 <= i <= faces@.len(),
                start == (Sorting {
                    boundary: Seq::empty(),
                    ends: Seq::empty(),
                    inner: Seq::empty(),
                }),
                self.graph().sort_faces(faces@, 0, start) == self.graph().sort_faces(
                    faces@,
                    i as int,
                    Sorting { boundary: boundary@, ends: ends@, inner: inner@ },
                ),
            decreases faces@.len() - i,
        {
            let ring = self.connectivity.face_halfedges(faces[i]);
            let ghost before = Sorting { boundary: boundary@, ends: ends@, inner: inner@ };
            let mut j: usize = 0;
            while j < ring.len()
                invariant
                    0 <= j <= ring@.len(),
                    0 <= i < faces@.len(),
                    ring@ == self.graph().face_halfedges(faces@[i as int]),
                    start == (Sorting {
                        boundary: Seq::empty(),
                        ends: Seq::empty(),
                        inner: Seq::empty(),
                    }),
                    self.graph().sort_faces(faces@, 0, start) == self.graph().sort_faces(
                        faces@,
                        i as int,
                        before,
                    ),
                    self.graph().sort_ring(faces@, ring@, 0, before) == self.graph().sort_ring(
                        faces@,
                        ring@,
                        j as int,
                        Sorting { boundary: boundary@, ends: ends@, inner: inner@ },
                    ),
                decreases ring@.len() - j,
            {
                let h = ring[j];
                let o = self.connectivity.he_opposite(h)?;
                let is_inner = match self.connectivity.he_face(o) {
                    Ok(f) => has_face(faces, f),
                    Err(_) => false,
                };
                if is_inner {
                    inner.push(h);
                } else {
                    let src = self.connectivity.src_vertex(h)?;
                    let dst = self.connectivity.he_vertex(h)?;
                    boundary.push(h);
                    ends.push(src);
                    ends.push(dst);
                }
                j += 1;
            }
            i += 1;
        }
        Ok((boundary, ends, inner))
    }

    fn doomed(&self, faces: &Vec<FaceId>, keep: &Vec<VertexId>) -> (r: Vec<VertexId>)
        ensures
            r@ == self.graph().doomed(faces@, keep@, 0, Seq::empty()),
    {
        let mut acc: Vec<VertexId> = Vec::new();
        let mut i: usize = 0;
        while i < faces.len()
            invariant
                0 <= i <= faces@.len(),
                self.graph().doomed(faces@, keep@, 0, Seq::empty()) == self.graph().doomed(
                    faces@,
                    keep@,
                    i as int,
                    acc@,
                ),
            decreases faces@.len() - i,
        {
            let ring = self.connectivity.face_vertices(faces[i]);
            let ghost before = acc@;
            let mut j: usize = 0;
            while j < ring.len()
                invariant
                    0 <= j <= ring@.len(),
                    Graph::others(ring@, keep@, 0, before) == Graph::others(
                        ring@,
                        keep@,
                        j as int,
                        acc@,
                    ),
                decreases ring@.len() - j,
            {
                if !has_vertex(keep, ring[j]) {
                    acc.push(ring[j]);
                }
                j += 1;
            }
            i += 1;
        }
        acc
    }

    fn delete_vertices(&mut self, vs: &Vec<VertexId>) -> (r: SMeshResult<()>)
        ensures
            Edit::after(final(self).graph(), r) == Edit::of(old(self).graph()).delete_vertices(vs@, 0),
            final(self).attributes() == old(self).attributes(),
            final(self).room() == old(self).room(),
    {
        let mut k: usize = 0;
        while k < vs.len()
            invariant
                0 <= k <= vs@.len(),
                Edit::of(old(self).graph()).delete_vertices(vs@, 0) == Edit::of(
                    self.graph(),
                ).delete_vertices(vs@, k as int),
                self.attributes() == old(self).attributes(),
                self.room() == old(self).room(),
            decreases vs@.len() - k,
        {
            self.delete_vertex(vs[k])?;
            k += 1;
        }
        Ok(())
    }

    fn delete_only_edges(&mut self, hs: &Vec<HalfedgeId>) -> (r: SMeshResult<()>)
        ensures
            Edit::after(final(self).graph(), r) == Edit::of(old(self).graph()).delete_only_edges(
                hs@,
                0,
            ),
            final(self).attributes() == old(self).attributes(),
            final(self).room() == old(self).room(),
    {
        let mut k: usize = 0;
        while k < hs.len()
            invariant
                0 <= k <= hs@.len(),
                Edit::of(old(self).graph()).delete_only_edges(hs@, 0) == Edit::of(
                    self.graph(),
                ).delete_only_edges(hs@, k as int),
                self.attributes() == old(self).attributes(),
                self.room() == old(self).room(),
            decreases hs@.len() - k,
        {
            self.delete_only_edge(hs[k])?;
            k += 1;
        }
        Ok(())
    }

    fn clear_selection(
        &mut self,
        faces: &Vec<FaceId>,
        ends: &Vec<VertexId>,
        inner: &Vec<HalfedgeId>,
        Ghost(sorting): Ghost<Sorting>,
    ) -> (r: SMeshResult<()>)
        requires
            sorting.ends == ends@,
            sorting.inner == inner@,
        ensures
            Edit::after(final(self).graph(), r) == Edit::of(old(self).graph()).clear_selection(
                faces@,
                sorting,
            ),
            final(self).attributes() == old(self).attributes(),
            final(self).room() == old(self).room(),
    {
        if faces.len() == 1 {
            self.delete_only_face(faces[0])?;
        }
        let doomed = self.doomed(faces, ends);
        self.delete_vertices(&doomed)?;
        self.delete_only_edges(inner)?;
        Ok(())
    }

    fn side_quads(&self, hs: &Vec<HalfedgeId>, uniq: &Vec<VertexId>, news: &Vec<VertexId>) -> (r:
        SMeshResult<Vec<Vec<VertexId>>>)
        ensures
            match r {
                Ok(quads) => self.graph().side_quads(hs@, uniq@, news@, 0, Seq::empty()) == Ok::<
                    Seq<Seq<VertexId>>,
                    SMeshError,
                >(polygons(quads@)) && quads@.len() == hs@.len() && (forall|k: int|
                    0 <= k < quads@.len() ==> (#[trigger] quads@[k])@.len() == 4),
                Err(e) => self.graph().side_quads(hs@, uniq@, news@, 0, Seq::empty()) == Err::<
                    Seq<Seq<VertexId>>,
                    SMeshError,
                >(e),
            },
    {
        let mut acc: Vec<Vec<VertexId>> = Vec::new();
        let mut i: usize = 0;
        proof {
            assert(polygons(acc@) =~= Seq::<Seq<VertexId>>::empty());
        }
        while i < hs.len()
            invariant
                0 <= i <= hs@.len(),
                acc@.len() == i,
                forall|k: int| 0 <= k < i ==> (#[trigger] acc@[k])@.len() == 4,
                self.graph().side_quads(hs@, uniq@, news@, 0, Seq::empty())
                    == self.graph().side_quads(hs@, uniq@, news@, i as int, polygons(acc@)),
            decreases hs@.len() - i,
        {
            let ghost before = polygons(acc@);
            let src = self.connectivity.src_vertex(hs[i])?;
            let dst = self.connectivity.he_vertex(hs[i])?;
            let src_new = match copy_of_vertex(uniq, news, src) {
                Some(c) => c,
                None => {
                    return Err(SMeshError::VertexNotFound(src));
                },
            };
            let dst_new = match copy_of_vertex(uniq, news, dst) {
                Some(c) => c,
                None => {
                    return Err(SMeshError::VertexNotFound(dst));
                },
            };
            let mut quad: Vec<VertexId> = Vec::new();
            quad.push(src);
            quad.push(dst);
            quad.push(dst_new);
            quad.push(src_new);
            proof {
                assert(quad@ =~= seq![src, dst, dst_new, src_new]);
            }
            acc.push(quad);
            proof {
                assert(polygons(acc@) =~= before.push(seq![src, dst, dst_new, src_new]));
            }
            i += 1;
        }
        Ok(acc)
    }

    /// `extrude_faces` with its exact contract.
    fn extrude_faces_exact(&mut self, faces: Vec<FaceId>) -> (r: SMeshResult<Vec<FaceId>>)
        requires
            old(self).room().covers(
                old(self).world().faces_room(faces@).0,
                old(self).world().faces_room(faces@).1,
                old(self).world().faces_room(faces@).2,
            ),
        ensures
            old(self).world().faces_extruded(faces@, final(self).world(), faces_view(r)),
            final(self).room().within(
                old(self).room(),
                old(self).world().faces_room(faces@).0,
                old(self).world().faces_room(faces@).1,
                old(self).world().faces_room(faces@).2,
            ),
    {
        let uniq = self.gather_corners(&faces);
        let ps = self.positions_of(&uniq)?;
        let sorted = self.sort_faces(&faces)?;
        let rings = self.rings_of(&faces);
        let ghost sorting = Sorting { boundary: sorted.0@, ends: sorted.1@, inner: sorted.2@ };
        let ghost site = FacesSite { uniq: uniq@, ps: ps@, rings: polygons(rings@), sorting };
        let news = self.add_vertices(&ps);
        let ghost need = old(self).world().faces_room(faces@);
        proof {
            crate::world::lemma_corner_count_nonneg(site.rings, 0);
            assert(need.0 == uniq@.len());
            assert(need.1 >= 0 && need.2 >= 0);
            assert(self.room().within(old(self).room(), need.0, 0, 0));
        }
        match self.clear_selection(&faces, &sorted.1, &sorted.2, Ghost(sorting)) {
            Err(e) => {
                proof {
                    assert(old(self).world().faces_extruded_with(
                        faces@,
                        site,
                        news@,
                        self.world(),
                        Err::<Seq<FaceId>, SMeshError>(e),
                    ));
                }
                return Err(e);
            },
            Ok(()) => {},
        }
        let mut quads = match self.side_quads(&sorted.0, &uniq, &news) {
            Err(e) => {
                proof {
                    assert(old(self).world().faces_extruded_with(
                        faces@,
                        site,
                        news@,
                        self.world(),
                        Err::<Seq<FaceId>, SMeshError>(e),
                    ));
                }
                return Err(e);
            },
            Ok(quads) => quads,
        };
        let mut tops = match tops_of(&uniq, &news, &rings) {
            Err(e) => {
                proof {
                    assert(old(self).world().faces_extruded_with(
                        faces@,
                        site,
                        news@,
                        self.world(),
                        Err::<Seq<FaceId>, SMeshError>(e),
                    ));
                }
                return Err(e);
            },
            Ok(tops) => tops,
        };
        let ghost g2 = self.graph();
        let ghost quads_view = polygons(quads@);
        let ghost tops_view = polygons(tops@);
        let n_quads = quads.len();
        quads.append(&mut tops);
        proof {
            assert(polygons(quads@) =~= quads_view + tops_view);
            lemma_corner_count_concat(quads_view, tops_view, 0);
            lemma_corner_count_quads(quads_view, 0);
            lemma_corner_count_same(tops_view, site.rings, 0);
        }
        let made = self.make_faces(&quads);
        let ghost fs = faces_view(made);
        let r = match made {
            Ok(mut ids) => Ok(ids.split_off(n_quads)),
            Err(e) => Err(e),
        };
        proof {
            assert(g2.faces_made(quads_view + tops_view, 0, Seq::empty(), self.graph(), fs));
            assert(g2.shell_made(quads_view, tops_view, self.graph(), faces_view(r)));
            assert(old(self).world().faces_extruded_with(
                faces@,
                site,
                news@,
                self.world(),
                faces_view(r),
            ));
        }
        r
    }

    /// Extrudes a set of faces together: every corner is copied, what lies
    /// inside the selection is removed, a wall is built along the rim of the
    /// selection, and each face is built again over the copies. Gives those
    /// faces, in the order of the selection.
    pub fn extrude_faces(&mut self, faces: Vec<FaceId>) -> (r: SMeshResult<Vec<FaceId>>)
        requires
            old(self).room().covers(
                old(self).world().faces_room(faces@).0,
                old(self).world().faces_room(faces@).1,
                old(self).world().faces_room(faces@).2,
            ),
        ensures
            old(self).world().faces_extruded(faces@, final(self).world(), faces_view(r)),
            final(self).room().within(
                old(self).room(),
                old(self).world().faces_room(faces@).0,
                old(self).world().faces_room(faces@).1,
                old(self).world().faces_room(faces@).2,
            ),
            old(self).graph().paired() ==> final(self).graph().paired(),
    {
        let ghost w = self.world();
        let ghost picked = faces@;
        let r = self.extrude_faces_exact(faces);
        proof {
            if w.g.paired() {
                w.law_faces_extrusion_keeps_pairs(picked, self.world(), faces_view(r));
            }
        }
        r
    }
}

} // verus!
