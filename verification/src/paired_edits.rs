use vstd::prelude::*;
use crate::attribute::Point3;
use crate::combine::{image, image_of, Renaming};
use crate::edit::Edit;
use crate::error::{SMeshError, SMeshResult};
use crate::graph::Graph;
use crate::mesh_elements::{slot_of, FaceId, HalfedgeId, VertexId};
use crate::edit_operations::wall;
use crate::extrude_faces::{top_polygons, Sorting};
use crate::selection::Picks;
use crate::subdivide::{split_pair, Harvest};
use crate::face_plan::next_index;
use crate::pairs::{
    lemma_delete_faces_paired, lemma_same_pairs_trans, lemma_stores_keep_pairs, lemma_delete_only_edge_paired, lemma_delete_only_face_paired,
    lemma_same_pairs_paired, lemma_steps_paired, same_pairs,
};
use crate::world::World;

verus! {

/// Adding isolated vertices leaves the halfedges as they are.
pub proof fn lemma_with_copies_keeps_pairs(w: World, ps: Seq<Point3>, news: Seq<VertexId>)
    ensures
        same_pairs(w.with_copies(ps, news).g, w.g),
    decreases ps.len(),
{
    if ps.len() != 0 && news.len() != 0 {
        lemma_with_copies_keeps_pairs(w, ps.drop_last(), news.drop_last());
    }
}

impl Graph {
    /// The halfedges stay in opposite pairs when faces are constructed one
    /// after another, up to the first construction that fails.
    pub proof fn law_faces_made_keep_pairs(
        self,
        polys: Seq<Seq<VertexId>>,
        i: int,
        acc: Seq<FaceId>,
        after: Graph,
        r: SMeshResult<Seq<FaceId>>,
    )
        requires
            self.paired(),
            self.faces_made(polys, i, acc, after, r),
        ensures
            after.paired(),
        decreases polys.len() - i,
    {
        if 0 <= i < polys.len() {
            let (mid, made) = choose|mid: Graph, made: SMeshResult<FaceId>|
                #![trigger self.made_face(polys[i], mid, made)]
                self.made_face(polys[i], mid, made) && (match made {
                    Err(e) => after == mid && r == Err::<Seq<FaceId>, SMeshError>(e),
                    Ok(f) => mid.faces_made(polys, i + 1, acc.push(f), after, r),
                });
            self.law_make_face_keeps_pairs(polys[i], mid, made);
            match made {
                Err(_) => {},
                Ok(f) => {
                    mid.law_faces_made_keep_pairs(polys, i + 1, acc.push(f), after, r);
                },
            }
        }
    }
}

impl World {
    /// The halfedges stay in opposite pairs when a face is extruded and
    /// when a boundary edge is extruded, whether that succeeds or not.
    pub proof fn law_extrusion_keeps_pairs(
        self,
        face: FaceId,
        e0: HalfedgeId,
        after: World,
        made: SMeshResult<FaceId>,
        side: SMeshResult<HalfedgeId>,
    )
        requires
            self.g.paired(),
            self.extruded(face, after, made) || self.edge_extruded(e0, after, side),
        ensures
            after.g.paired(),
    {
        if self.extruded(face, after, made) {
            let olds = self.g.face_vertices(face);
            match self.positions(olds, 0, Seq::empty()) {
                Err(_) => {},
                Ok(ps) => {
                    let news = choose|news: Seq<VertexId>| #[trigger]
                        self.extruded_with(face, olds, ps, news, after, made);
                    let w1 = self.with_copies(ps, news);
                    lemma_with_copies_keeps_pairs(self, ps, news);
                    lemma_same_pairs_paired(w1.g, self.g);
                    lemma_delete_only_face_paired(Edit::of(w1.g), face);
                    let e = Edit::of(w1.g).delete_only_face(face);
                    if e.err is None {
                        let polys = crate::edit_operations::extrusion_polygons(olds, news);
                        let fs = choose|fs: SMeshResult<Seq<FaceId>>| #[trigger]
                            e.g.faces_made(polys, 0, Seq::empty(), after.g, fs) && made
                                == crate::edit_operations::last_face(fs);
                        e.g.law_faces_made_keep_pairs(polys, 0, Seq::empty(), after.g, fs);
                    }
                },
            }
        } else {
            match self.edge_site(e0) {
                Err(_) => {},
                Ok(site) => {
                    let (a, b) = choose|a: VertexId, b: VertexId| #[trigger]
                        self.edge_extruded_with(site.0, site.1, site.2, site.3, a, b, after, side);
                    let w1 = self.added(site.2, a).added(site.3, b);
                    lemma_same_pairs_paired(w1.g, self.g);
                    let quad = seq![site.0, site.1, b, a];
                    let got = choose|got: SMeshResult<FaceId>| #[trigger]
                        w1.g.made_face(quad, after.g, got) && side == (match got {
                            Err(e) => Err(e),
                            Ok(_) => after.g.halfedge_to(a, b),
                        });
                    w1.g.law_make_face_keeps_pairs(quad, after.g, got);
                },
            }
        }
    }
}

impl Graph {
    /// Building the quads of an edge chain leaves a paired graph paired.
    pub proof fn lemma_chain_made_paired(
        self,
        olds: Seq<VertexId>,
        news: Seq<VertexId>,
        k: int,
        count: int,
        acc: Seq<HalfedgeId>,
        after: Graph,
        r: SMeshResult<Seq<HalfedgeId>>,
    )
        requires
            self.paired(),
            self.chain_made(olds, news, k, count, acc, after, r),
        ensures
            after.paired(),
        decreases count - k,
    {
        if 0 <= k < count {
            let (mid, made) = choose|mid: Graph, made: SMeshResult<FaceId>|
                #![trigger self.made_face(wall(olds, news, k), mid, made)]
                self.made_face(wall(olds, news, k), mid, made) && (match made {
                    Err(e) => after == mid && r == Err::<Seq<HalfedgeId>, SMeshError>(e),
                    Ok(_) => match mid.halfedge_to(
                        news[k],
                        news[next_index(k, olds.len() as int)],
                    ) {
                        Err(e) => after == mid && r == Err::<Seq<HalfedgeId>, SMeshError>(e),
                        Ok(h) => mid.chain_made(olds, news, k + 1, count, acc.push(h), after, r),
                    },
                });
            self.law_make_face_keeps_pairs(wall(olds, news, k), mid, made);
            match made {
                Err(_) => {},
                Ok(_) => match mid.halfedge_to(news[k], news[next_index(k, olds.len() as int)]) {
                    Err(_) => {},
                    Ok(h) => {
                        mid.lemma_chain_made_paired(olds, news, k + 1, count, acc.push(h), after, r);
                    },
                },
            }
        }
    }
}

/// Removing vertices with what hangs on them leaves a paired graph paired.
pub proof fn lemma_delete_vertices_paired(e: Edit, vs: Seq<VertexId>, k: int)
    requires
        e.g.paired(),
    ensures
        e.delete_vertices(vs, k).g.paired(),
    decreases vs.len() - k,
{
    if 0 <= k < vs.len() {
        let deleted = e.delete_vertex(vs[k]);
        if e.err is None {
            lemma_delete_faces_paired(e, e.g.vertex_faces(vs[k]), 0);
            lemma_steps_paired(e.delete_faces(e.g.vertex_faces(vs[k]), 0));
        }
        if deleted.err is None {
            lemma_delete_vertices_paired(deleted, vs, k + 1);
        }
    }
}

/// Removing only edges leaves a paired graph paired.
pub proof fn lemma_delete_only_edges_paired(e: Edit, hs: Seq<HalfedgeId>, k: int)
    requires
        e.g.paired(),
    ensures
        e.delete_only_edges(hs, k).g.paired(),
    decreases hs.len() - k,
{
    if 0 <= k < hs.len() {
        lemma_delete_only_edge_paired(e, hs[k]);
        let deleted = e.delete_only_edge(hs[k]);
        if deleted.err is None {
            lemma_delete_only_edges_paired(deleted, hs, k + 1);
        }
    }
}

/// Clearing what lies inside a selection of faces leaves a paired graph
/// paired.
pub proof fn lemma_clear_selection_paired(e: Edit, faces: Seq<FaceId>, sorting: Sorting)
    requires
        e.g.paired(),
    ensures
        e.clear_selection(faces, sorting).g.paired(),
{
    let first = if faces.len() == 1 {
        e.delete_only_face(faces[0])
    } else {
        e
    };
    if faces.len() == 1 {
        lemma_delete_only_face_paired(e, faces[0]);
    }
    if first.err is None {
        let doomed = first.g.doomed(faces, sorting.ends, 0, Seq::empty());
        lemma_delete_vertices_paired(first, doomed, 0);
        lemma_delete_only_edges_paired(first.delete_vertices(doomed, 0), sorting.inner, 0);
    }
}

impl World {
    /// The halfedges stay in opposite pairs when a chain of edges is
    /// extruded, whether that succeeds or not.
    pub proof fn law_chain_extrusion_keeps_pairs(
        self,
        edges: Seq<HalfedgeId>,
        after: World,
        r: SMeshResult<Seq<HalfedgeId>>,
    )
        requires
            self.g.paired(),
            self.chain_extruded(edges, after, r),
        ensures
            after.g.paired(),
    {
        match self.chain_site(edges) {
            Err(_) => {},
            Ok(site) => {
                let news = choose|news: Seq<VertexId>| #[trigger]
                    self.chain_extruded_with(site, news, after, r);
                let w1 = self.with_copies(site.ps, news);
                lemma_with_copies_keeps_pairs(self, site.ps, news);
                lemma_same_pairs_paired(w1.g, self.g);
                w1.g.lemma_chain_made_paired(
                    site.olds,
                    news,
                    0,
                    site.quads(),
                    Seq::empty(),
                    after.g,
                    r,
                );
            },
        }
    }

    /// The halfedges stay in opposite pairs when a set of faces is
    /// extruded, whether that succeeds or not.
    pub proof fn law_faces_extrusion_keeps_pairs(
        self,
        faces: Seq<FaceId>,
        after: World,
        r: SMeshResult<Seq<FaceId>>,
    )
        requires
            self.g.paired(),
            self.faces_extruded(faces, after, r),
        ensures
            after.g.paired(),
    {
        match self.faces_site(faces) {
            Err(_) => {},
            Ok(site) => {
                let news = choose|news: Seq<VertexId>| #[trigger]
                    self.faces_extruded_with(faces, site, news, after, r);
                let w1 = self.with_copies(site.ps, news);
                lemma_with_copies_keeps_pairs(self, site.ps, news);
                lemma_same_pairs_paired(w1.g, self.g);
                lemma_clear_selection_paired(Edit::of(w1.g), faces, site.sorting);
                let e = Edit::of(w1.g).clear_selection(faces, site.sorting);
                if e.err is None {
                    match e.g.side_quads(site.sorting.boundary, site.uniq, news, 0, Seq::empty()) {
                        Err(_) => {},
                        Ok(quads) => match top_polygons(site.uniq, news, site.rings, 0, Seq::empty()) {
                            Err(_) => {},
                            Ok(tops) => {
                                let fs = choose|fs: SMeshResult<Seq<FaceId>>| #[trigger]
                                    e.g.faces_made(quads + tops, 0, Seq::empty(), after.g, fs) && r
                                        == (match fs {
                                        Ok(ids) => Ok(ids.skip(quads.len() as int)),
                                        Err(e) => Err(e),
                                    });
                                e.g.law_faces_made_keep_pairs(
                                    quads + tops,
                                    0,
                                    Seq::empty(),
                                    after.g,
                                    fs,
                                );
                            },
                        },
                    }
                }
            },
        }
    }
}

impl Graph {
    /// Cutting pieces off a loop leaves a paired graph paired.
    pub proof fn lemma_pieces_made_paired(
        self,
        ring: Seq<HalfedgeId>,
        k: int,
        apex: Option<VertexId>,
        acc: Seq<FaceId>,
        after: Graph,
        r: SMeshResult<Seq<FaceId>>,
    )
        requires
            self.paired(),
            self.pieces_made(ring, k, apex, acc, after, r),
        ensures
            after.paired(),
        decreases ring.len() + 1 - k,
    {
        if 0 <= k < ring.len() && self.piece(ring, k, apex) is Ok {
            let poly = self.piece(ring, k, apex)->Ok_0;
            let (mid, made) = choose|mid: Graph, made: SMeshResult<FaceId>|
                #![trigger self.made_face(self.piece(ring, k, apex)->Ok_0, mid, made)]
                self.made_face(self.piece(ring, k, apex)->Ok_0, mid, made) && (if made is Err {
                    after == mid && r == Err::<Seq<FaceId>, SMeshError>(made->Err_0)
                } else {
                    mid.pieces_made(ring, k + 2, apex, acc.push(made->Ok_0), after, r)
                });
            self.law_make_face_keeps_pairs(poly, mid, made);
            if made is Ok {
                mid.lemma_pieces_made_paired(ring, k + 2, apex, acc.push(made->Ok_0), after, r);
            }
        }
    }

    /// Refining a former triangle leaves a paired graph paired.
    pub proof fn lemma_triangle_refined_paired(
        self,
        ring: Seq<HalfedgeId>,
        after: Graph,
        r: SMeshResult<Seq<FaceId>>,
    )
        requires
            self.paired(),
            self.triangle_refined(ring, after, r),
        ensures
            after.paired(),
    {
        let (mid, rim) = choose|mid: Graph, rim: SMeshResult<Seq<FaceId>>| #[trigger]
            self.triangle_refined_via(ring, mid, rim, after, r);
        self.lemma_pieces_made_paired(ring, 0, None, Seq::empty(), mid, rim);
        match rim {
            Err(_) => {},
            Ok(fs) => match mid.middle(ring) {
                Err(_) => {},
                Ok(poly) => {
                    let made = choose|made: SMeshResult<FaceId>| #[trigger]
                        mid.last_made_via(poly, fs, made, after, r);
                    mid.law_make_face_keeps_pairs(poly, after, made);
                },
            },
        }
    }
}

impl World {
    /// Splitting edges leaves a paired graph paired.
    pub proof fn lemma_edges_split_paired(
        self,
        hs: Seq<HalfedgeId>,
        i: int,
        st: Harvest,
        after: World,
        r: SMeshResult<Harvest>,
    )
        requires
            self.g.paired(),
            self.edges_split(hs, i, st, after, r),
        ensures
            after.g.paired(),
        decreases hs.len() - i,
    {
        if 0 <= i < hs.len() {
            if st.done.contains(hs[i]) {
                self.lemma_edges_split_paired(hs, i + 1, st, after, r);
            } else if self.split_site(hs[i]) is Ok {
                let site = self.split_site(hs[i])->Ok_0;
                let (v, mid, rh) = choose|v: VertexId, mid: Graph, rh: SMeshResult<HalfedgeId>|
                    #![trigger self.split_step(hs[i], v, mid, rh)]
                    self.split_step(hs[i], v, mid, rh) && (if split_pair(mid, rh) is Err {
                        after == self.split_world(hs[i], v, mid) && r == Err::<Harvest, SMeshError>(
                            split_pair(mid, rh)->Err_0,
                        )
                    } else {
                        self.split_world(hs[i], v, mid).edges_split(
                            hs,
                            i + 1,
                            st.with_split(
                                hs[i],
                                self.split_site(hs[i])->Ok_0.opposite,
                                split_pair(mid, rh)->Ok_0.0,
                                split_pair(mid, rh)->Ok_0.1,
                                v,
                                self.split_site(hs[i])->Ok_0.src,
                                self.split_site(hs[i])->Ok_0.dst,
                            ),
                            after,
                            r,
                        )
                    });
                let w1 = self.added(site.at, v);
                lemma_same_pairs_paired(w1.g, self.g);
                w1.g.law_insert_vertex_keeps_pairs(hs[i], v, mid, rh);
                if split_pair(mid, rh) is Ok {
                    self.split_world(hs[i], v, mid).lemma_edges_split_paired(
                        hs,
                        i + 1,
                        st.with_split(
                            hs[i],
                            site.opposite,
                            split_pair(mid, rh)->Ok_0.0,
                            split_pair(mid, rh)->Ok_0.1,
                            v,
                            site.src,
                            site.dst,
                        ),
                        after,
                        r,
                    );
                }
            }
        }
    }

    /// Subdividing one face leaves a paired graph paired.
    pub proof fn lemma_refine_step_paired(
        self,
        f: FaceId,
        corner: VertexId,
        centre: VertexId,
        mid: World,
        made: SMeshResult<Seq<FaceId>>,
    )
        requires
            self.g.paired(),
            self.refine_step(f, corner, centre, mid, made),
        ensures
            mid.g.paired(),
    {
        let site = self.refine_site(f, corner)->Ok_0;
        if site.sides == 3 {
            lemma_delete_only_face_paired(Edit::of(self.g), f);
            let e = Edit::of(self.g).delete_only_face(f);
            if e.err is None {
                e.g.lemma_triangle_refined_paired(site.ring, mid.g, made);
            }
        } else if site.sides == 4 {
            let w1 = self.added(self.a.positions[site.corners[0]@], centre);
            lemma_same_pairs_paired(w1.g, self.g);
            lemma_delete_only_face_paired(Edit::of(w1.g), f);
            let e = Edit::of(w1.g).delete_only_face(f);
            if e.err is None {
                e.g.lemma_pieces_made_paired(
                    site.ring,
                    0,
                    Some(centre),
                    Seq::empty(),
                    mid.g,
                    made,
                );
            }
        }
    }

    /// Subdividing faces leaves a paired graph paired.
    pub proof fn lemma_faces_refined_paired(
        self,
        fs: Seq<FaceId>,
        corners: Seq<VertexId>,
        i: int,
        st: Harvest,
        after: World,
        r: SMeshResult<Harvest>,
    )
        requires
            self.g.paired(),
            self.faces_refined(fs, corners, i, st, after, r),
        ensures
            after.g.paired(),
        decreases fs.len() - i,
    {
        if 0 <= i < fs.len() && self.refine_site(fs[i], corners[i]) is Ok {
            let (centre, mid, made) = choose|
                centre: VertexId,
                mid: World,
                made: SMeshResult<Seq<FaceId>>,
            |
                #![trigger self.refine_step(fs[i], corners[i], centre, mid, made)]
                self.refine_step(fs[i], corners[i], centre, mid, made) && (if made is Err {
                    after == mid && r == Err::<Harvest, SMeshError>(made->Err_0)
                } else {
                    mid.faces_refined(
                        fs,
                        corners,
                        i + 1,
                        self.refine_harvest(fs[i], corners[i], centre, made->Ok_0, st),
                        after,
                        r,
                    )
                });
            self.lemma_refine_step_paired(fs[i], corners[i], centre, mid, made);
            if made is Ok {
                mid.lemma_faces_refined_paired(
                    fs,
                    corners,
                    i + 1,
                    self.refine_harvest(fs[i], corners[i], centre, made->Ok_0, st),
                    after,
                    r,
                );
            }
        }
    }

    /// The halfedges stay in opposite pairs when a selection is subdivided,
    /// whether that succeeds or not.
    pub proof fn law_subdivision_keeps_pairs(
        self,
        picks: Picks,
        after: World,
        r: SMeshResult<Harvest>,
    )
        requires
            self.g.paired(),
            self.subdivided(picks, after, r),
        ensures
            after.g.paired(),
    {
        match self.g.resolve_to_faces(picks) {
            Err(_) => {},
            Ok(fs) => match self.g.resolve_to_halfedges(picks) {
                Err(_) => {},
                Ok(hs) => match self.g.face_corners(fs, 0, Seq::empty()) {
                    Err(_) => {},
                    Ok(corners) => {
                        let (mid, split) = choose|mid: World, split: SMeshResult<Harvest>| #[trigger]
                            self.subdivided_via(hs, fs, corners, mid, split, after, r);
                        self.lemma_edges_split_paired(hs, 0, Harvest::empty(), mid, split);
                        match split {
                            Err(_) => {},
                            Ok(st) => {
                                mid.lemma_faces_refined_paired(fs, corners, 0, st, after, r);
                            },
                        }
                    },
                },
            },
        }
    }
}

/// Where no key stands twice, the image of the `j`-th key is the `j`-th
/// value.
pub proof fn lemma_image_at(keys: Seq<HalfedgeId>, vals: Seq<HalfedgeId>, j: int, i: int)
    requires
        0 <= i <= j < keys.len(),
        keys.len() == vals.len(),
        forall|a: int, b: int| 0 <= a < b < keys.len() ==> keys[a] != keys[b],
    ensures
        image(keys, vals, keys[j], i) == Some(vals[j]),
    decreases j - i,
{
    if i < j {
        lemma_image_at(keys, vals, j, i + 1);
    }
}

impl Graph {
    /// Planting isolated vertices and empty faces leaves the halfedges as
    /// they are.
    pub proof fn lemma_planted_keep_halfedges(self, vs: Seq<VertexId>, fs: Seq<FaceId>)
        ensures
            self.planted_vertices(vs).halfedges == self.halfedges,
            self.planted_faces(fs).halfedges == self.halfedges,
        decreases vs.len() + fs.len(),
    {
        if vs.len() != 0 {
            self.lemma_planted_keep_halfedges(vs.drop_last(), Seq::empty());
        }
        if fs.len() != 0 {
            self.lemma_planted_keep_halfedges(Seq::empty(), fs.drop_last());
        }
    }

    /// What planting halfedges under fresh identifiers gives: the halfedges
    /// that were there, as they were, and the records of `o` under the new
    /// identifiers.
    pub proof fn lemma_planted_halfedges(self, o: Graph, olds: Seq<HalfedgeId>, news: Seq<HalfedgeId>)
        requires
            news.len() <= olds.len(),
            forall|a: int, b: int| 0 <= a < b < news.len() ==> news[a] != news[b],
        ensures
            forall|h: HalfedgeId|
                #[trigger] self.planted_halfedges(o, olds, news).halfedges.contains_key(h) <==> (
                self.halfedges.contains_key(h) || news.contains(h)),
            forall|h: HalfedgeId|
                !news.contains(h) ==> #[trigger] self.planted_halfedges(o, olds, news).halfedges[h]
                    == self.halfedges[h],
            forall|i: int|
                0 <= i < news.len() ==> self.planted_halfedges(o, olds, news).halfedges[#[trigger] news[i]]
                    == o.halfedges[olds[i]],
        decreases news.len(),
    {
        if news.len() != 0 {
            let shorter = news.drop_last();
            self.lemma_planted_halfedges(o, olds, shorter);
            let before = self.planted_halfedges(o, olds, shorter);
            let after = self.planted_halfedges(o, olds, news);
            let n = news.len() - 1;
            assert(after.halfedges == before.halfedges.insert(news[n], o.halfedges[olds[n]]));
            assert forall|h: HalfedgeId| #[trigger]
                after.halfedges.contains_key(h) <==> (self.halfedges.contains_key(h)
                    || news.contains(h)) by {
                if shorter.contains(h) {
                    let k = choose|k: int| 0 <= k < shorter.len() && shorter[k] == h;
                    assert(news[k] == h);
                }
                if news.contains(h) {
                    let k = choose|k: int| 0 <= k < news.len() && news[k] == h;
                    if k < n {
                        assert(shorter[k] == h);
                    }
                }
                if h == news[n] {
                    assert(news.contains(h));
                }
            }
            assert forall|h: HalfedgeId| !news.contains(h) implies #[trigger] after.halfedges[h]
                == self.halfedges[h] by {
                assert(h != news[n]);
                if shorter.contains(h) {
                    let k = choose|k: int| 0 <= k < shorter.len() && shorter[k] == h;
                    assert(news[k] == h);
                }
            }
            assert forall|i: int| 0 <= i < news.len() implies after.halfedges[#[trigger] news[i]]
                == o.halfedges[olds[i]] by {
                if i < n {
                    assert(shorter[i] == news[i]);
                    assert(news[i] != news[n]);
                }
            }
        }
    }
}

/// Storing the renamed records succeeds where the new identifiers are live,
/// and changes the records under them and no others.
pub proof fn lemma_renamed_halfedges(e: Edit, o: Graph, names: Renaming, i: int)
    requires
        e.err is None,
        0 <= i <= names.halfedges.len(),
        names.halfedges.len() == names.new_halfedges.len(),
        forall|k: int|
            0 <= k < names.new_halfedges.len() ==> e.g.halfedges.contains_key(
                #[trigger] names.new_halfedges[k],
            ),
        forall|a: int, b: int|
            0 <= a < b < names.new_halfedges.len() ==> names.new_halfedges[a]
                != names.new_halfedges[b],
    ensures
        e.renamed_halfedges(o, names, i).err is None,
        e.renamed_halfedges(o, names, i).g.halfedges.dom() == e.g.halfedges.dom(),
        forall|k: int|
            i <= k < names.new_halfedges.len() ==> e.renamed_halfedges(
                o,
                names,
                i,
            ).g.halfedges[#[trigger] names.new_halfedges[k]] == names.halfedge(
                o.halfedges[names.halfedges[k]],
            ),
        forall|h: HalfedgeId|
            !names.new_halfedges.contains(h) ==> #[trigger] e.renamed_halfedges(
                o,
                names,
                i,
            ).g.halfedges[h] == e.g.halfedges[h],
        forall|k: int|
            0 <= k < i ==> e.renamed_halfedges(o, names, i).g.halfedges[#[trigger] names.new_halfedges[k]]
                == e.g.halfedges[names.new_halfedges[k]],
    decreases names.halfedges.len() - i,
{
    if i < names.halfedges.len() {
        let h = names.new_halfedges[i];
        let stored = e.put_he(h, names.halfedge(o.halfedges[names.halfedges[i]]));
        assert(stored.g.halfedges.dom() =~= e.g.halfedges.dom());
        lemma_renamed_halfedges(stored, o, names, i + 1);
        let last = e.renamed_halfedges(o, names, i);
        assert(last == stored.renamed_halfedges(o, names, i + 1));
        assert(last.g.halfedges[names.new_halfedges[i]] == stored.g.halfedges[h]);
        assert forall|x: HalfedgeId| !names.new_halfedges.contains(x) implies #[trigger]
            last.g.halfedges[x] == e.g.halfedges[x] by {
            assert(x != h);
        }
    }
}

/// Storing renamed references on vertices leaves the pairs as they are.
pub proof fn lemma_renamed_vertices_keep_pairs(e: Edit, o: Graph, names: Renaming, i: int)
    ensures
        same_pairs(e.renamed_vertices(o, names, i).g, e.g),
    decreases names.vertices.len() - i,
{
    lemma_stores_keep_pairs(e);
    if 0 <= i < names.vertices.len() && i < names.new_vertices.len() {
        let stored = e.set_vertex_halfedge(
            names.new_vertices[i],
            image_of(names.halfedges, names.new_halfedges, o.vertices[names.vertices[i]].halfedge),
        );
        if stored.err is None {
            lemma_renamed_vertices_keep_pairs(stored, o, names, i + 1);
            lemma_same_pairs_trans(stored.renamed_vertices(o, names, i + 1).g, stored.g, e.g);
        }
    }
}

/// Storing renamed references on faces leaves the pairs as they are.
pub proof fn lemma_renamed_faces_keep_pairs(e: Edit, o: Graph, names: Renaming, j: int)
    ensures
        same_pairs(e.renamed_faces(o, names, j).g, e.g),
    decreases names.faces.len() - j,
{
    lemma_stores_keep_pairs(e);
    if 0 <= j < names.faces.len() && j < names.new_faces.len() {
        let stored = e.set_face_halfedge(
            names.new_faces[j],
            image_of(names.halfedges, names.new_halfedges, o.faces[names.faces[j]].halfedge),
        );
        if stored.err is None {
            lemma_renamed_faces_keep_pairs(stored, o, names, j + 1);
            lemma_same_pairs_trans(stored.renamed_faces(o, names, j + 1).g, stored.g, e.g);
        }
    }
}

impl Graph {
    /// A copy of a paired graph beside a paired graph, under fresh names,
    /// gives a paired graph.
    pub proof fn lemma_combined_paired(self, o: Graph, names: Renaming)
        requires
            self.paired(),
            o.paired(),
            names.lists(o),
            names.fresh_in(self),
        ensures
            self.combined(o, names).g.paired(),
    {
        let olds = names.halfedges;
        let news = names.new_halfedges;
        let g0 = self.planted_vertices(names.new_vertices);
        self.lemma_planted_keep_halfedges(names.new_vertices, Seq::empty());
        let g1 = g0.planted_faces(names.new_faces);
        g0.lemma_planted_keep_halfedges(Seq::empty(), names.new_faces);
        let g2 = g1.planted_halfedges(o, olds, news);
        g1.lemma_planted_halfedges(o, olds, news);
        let e2 = Edit::of(g2);
        assert forall|k: int| 0 <= k < news.len() implies g2.halfedges.contains_key(
            #[trigger] news[k],
        ) by {
            assert(news.contains(news[k]));
        }
        lemma_renamed_halfedges(e2, o, names, 0);
        let e3 = e2.renamed_halfedges(o, names, 0);
        assert forall|a: int, b: int| 0 <= a < b < olds.len() implies olds[a] != olds[b] by {
            assert(slot_of(olds[a]@) < slot_of(olds[b]@));
        }
        assert forall|h: HalfedgeId| #[trigger] e3.g.paired_at(h) by {
            if e3.g.halfedges.contains_key(h) {
                assert(g2.halfedges.contains_key(h));
                if news.contains(h) {
                    let i = choose|i: int| 0 <= i < news.len() && news[i] == h;
                    assert(olds.contains(olds[i]));
                    assert(o.paired_at(olds[i]));
                    let x = o.halfedges[olds[i]].opposite->Some_0;
                    assert(o.paired_at(x));
                    assert(olds.contains(x));
                    let j = choose|j: int| 0 <= j < olds.len() && olds[j] == x;
                    lemma_image_at(olds, news, j, 0);
                    lemma_image_at(olds, news, i, 0);
                    assert(e3.g.halfedges[news[i]] == names.halfedge(o.halfedges[olds[i]]));
                    assert(e3.g.halfedges[news[j]] == names.halfedge(o.halfedges[olds[j]]));
                    assert(e3.g.halfedges[h].opposite == Some(news[j]));
                    assert(news.contains(news[j]));
                    assert(i != j);
                    assert(e3.g.halfedges[news[j]].opposite == Some(news[i]));
                } else {
                    assert(self.halfedges.contains_key(h));
                    assert(self.paired_at(h));
                    let x = self.halfedges[h].opposite->Some_0;
                    assert(self.halfedges.contains_key(x));
                    if news.contains(x) {
                        let j = choose|j: int| 0 <= j < news.len() && news[j] == x;
                        assert(!self.halfedges.contains_key(news[j]));
                    }
                    assert(e3.g.halfedges[h] == self.halfedges[h]);
                    assert(e3.g.halfedges[x] == self.halfedges[x]);
                }
            }
        }
        lemma_renamed_vertices_keep_pairs(e3, o, names, 0);
        let e4 = e3.renamed_vertices(o, names, 0);
        lemma_same_pairs_paired(e4.g, e3.g);
        lemma_renamed_faces_keep_pairs(e4, o, names, 0);
        lemma_same_pairs_paired(e4.renamed_faces(o, names, 0).g, e4.g);
    }
}

impl World {
    /// The halfedges stay in opposite pairs when a mesh whose halfedges are
    /// in opposite pairs is copied into this one, whether that succeeds or
    /// not.
    pub proof fn law_combination_keeps_pairs(self, o: World, after: World, r: SMeshResult<()>)
        requires
            self.g.paired(),
            o.g.paired(),
            self.combined_with(o, after, r),
        ensures
            after.g.paired(),
    {
        let names = choose|names: Renaming| #[trigger] self.combined_as(o, names, after, r);
        match o.g.references_live(names) {
            Err(_) => {},
            Ok(_) => {
                self.g.lemma_combined_paired(o.g, names);
            },
        }
    }
}

} // verus!
