use vstd::prelude::*;
use crate::attribute::{point_set, Point3};
use crate::error::{SMeshError, SMeshResult};
use crate::graph::Graph;
use crate::mesh::{Attributes, SMesh};
use crate::mesh_elements::{slot_of, FaceId, Vertex, VertexId};

verus! {

/// A mesh as a mathematical value: its connectivity and its attributes.
pub struct World {
    pub g: Graph,
    pub a: Attributes,
}

impl SMesh {
    /// The mesh as a value.
    pub open spec fn world(&self) -> World {
        World { g: self.graph(), a: self.attributes() }
    }
}

/// None of the identifiers is a live vertex of `g`, and no two of them are
/// the same. Each of them can be handed out for a new vertex of `g`, and no
/// two of them have the same slot.
pub open spec fn fresh_vertices(g: Graph, news: Seq<VertexId>) -> bool {
    &&& forall|i: int| 0 <= i < news.len() ==> !g.vertices.contains_key(#[trigger] news[i])
    &&& forall|i: int, j: int| 0 <= i < j < news.len() ==> #[trigger] news[i] != #[trigger] news[j]
    &&& forall|i: int| 0 <= i < news.len() ==> g.vertex_free(#[trigger] news[i])
    &&& forall|i: int, j: int|
        0 <= i < j < news.len() ==> slot_of((#[trigger] news[i])@) != slot_of((#[trigger] news[j])@)
}

/// The vertex lists as values.
pub open spec fn polygons(polys: Seq<Vec<VertexId>>) -> Seq<Seq<VertexId>> {
    Seq::new(polys.len(), |i: int| polys[i]@)
}

/// The result of a batch of face constructions as a value.
pub open spec fn faces_view(r: SMeshResult<Vec<FaceId>>) -> SMeshResult<Seq<FaceId>> {
    match r {
        Ok(fs) => Ok(fs@),
        Err(e) => Err(e),
    }
}

/// The number of vertices in the lists from the `i`-th on.
pub open spec fn corner_count(polys: Seq<Seq<VertexId>>, i: int) -> int
    decreases polys.len() - i,
{
    if i < 0 || i >= polys.len() {
        0
    } else {
        polys[i].len() + corner_count(polys, i + 1)
    }
}

/// A count of corners is not negative.
pub proof fn lemma_corner_count_nonneg(polys: Seq<Seq<VertexId>>, i: int)
    ensures
        corner_count(polys, i) >= 0,
    decreases polys.len() - i,
{
    if 0 <= i < polys.len() {
        lemma_corner_count_nonneg(polys, i + 1);
    }
}

impl World {
    /// The world with an isolated vertex `v` at `position`.
    pub open spec fn added(self, position: Point3, v: VertexId) -> World {
        World {
            g: self.g.plus_vertex(v, Vertex { halfedge: None }),
            a: Attributes { positions: point_set(self.a.positions, v@, position), ..self.a },
        }
    }

    /// The world with an isolated vertex `news[i]` at `ps[i]` for each `i`,
    /// added in order.
    pub open spec fn with_copies(self, ps: Seq<Point3>, news: Seq<VertexId>) -> World
        decreases ps.len(),
    {
        if ps.len() == 0 || news.len() == 0 {
            self
        } else {
            self.with_copies(ps.drop_last(), news.drop_last()).added(ps.last(), news.last())
        }
    }

    /// What reading the position of a vertex gives.
    pub open spec fn position(self, v: VertexId) -> SMeshResult<Point3> {
        if self.a.positions.contains_key(v@) {
            Ok(self.a.positions[v@])
        } else {
            Err(SMeshError::CustomError(crate::error::MSG_NO_POSITION))
        }
    }

    /// The positions of the vertices from the `i`-th on, after `acc`, or
    /// the error of the first that has none.
    pub open spec fn positions(self, vs: Seq<VertexId>, i: int, acc: Seq<Point3>) -> SMeshResult<
        Seq<Point3>,
    >
        decreases vs.len() - i,
    {
        if i < 0 || i >= vs.len() {
            Ok(acc)
        } else {
            match self.position(vs[i]) {
                Err(e) => Err(e),
                Ok(p) => self.positions(vs, i + 1, acc.push(p)),
            }
        }
    }
}

impl World {
    /// A new vertex has the position it was given, and the live vertices
    /// keep theirs.
    pub proof fn law_new_vertex_has_position(self, position: Point3, v: VertexId)
        requires
            self.g.vertex_free(v),
        ensures
            self.added(position, v).position(v) == Ok::<Point3, SMeshError>(position),
            forall|u: VertexId|
                self.g.vertices.contains_key(u) ==> #[trigger] self.added(position, v).position(u)
                    == self.position(u),
    {
    }

    /// Copies have the positions they were given, and the live vertices
    /// keep theirs.
    pub proof fn law_copies_have_positions(self, ps: Seq<Point3>, news: Seq<VertexId>)
        requires
            ps.len() == news.len(),
            fresh_vertices(self.g, news),
        ensures
            forall|i: int|
                0 <= i < news.len() ==> self.with_copies(ps, news).position(#[trigger] news[i])
                    == Ok::<Point3, SMeshError>(ps[i]),
            forall|u: VertexId|
                self.g.vertices.contains_key(u) ==> #[trigger] self.with_copies(ps, news).position(u)
                    == self.position(u),
            forall|u: VertexId|
                self.g.vertices.contains_key(u) ==> #[trigger] self.with_copies(
                    ps,
                    news,
                ).g.vertices.contains_key(u),
        decreases ps.len(),
    {
        if ps.len() != 0 {
            let n = ps.len() - 1;
            let shorter = news.drop_last();
            assert(fresh_vertices(self.g, shorter)) by {
                assert forall|i: int| 0 <= i < shorter.len() implies shorter[i] == news[i] by {}
            }
            self.law_copies_have_positions(ps.drop_last(), shorter);
            let before = self.with_copies(ps.drop_last(), shorter);
            let after = before.added(ps.last(), news.last());
            assert(self.with_copies(ps, news) == after);
            assert forall|i: int| 0 <= i < news.len() implies after.position(#[trigger] news[i])
                == Ok::<Point3, SMeshError>(ps[i]) by {
                if i < n {
                    assert(shorter[i] == news[i]);
                    assert(ps.drop_last()[i] == ps[i]);
                    assert(slot_of(news[i]@) != slot_of(news[n]@));
                    assert(before.position(shorter[i]) == Ok::<Point3, SMeshError>(ps[i]));
                }
            }
            assert forall|u: VertexId| self.g.vertices.contains_key(u) implies #[trigger]
                after.position(u) == self.position(u) by {
                assert(self.g.vertex_free(news[n]));
                assert(before.position(u) == self.position(u));
            }
        }
    }
}

impl Graph {
    /// The graph `after` and the result `r` are what constructing a face
    /// over each of the vertex lists from the `i`-th on, in order, makes of
    /// this graph: the identifiers of the faces after `acc`, or the error of
    /// the first construction that fails, at which the work stops.
    pub open spec fn faces_made(
        self,
        polys: Seq<Seq<VertexId>>,
        i: int,
        acc: Seq<FaceId>,
        after: Graph,
        r: SMeshResult<Seq<FaceId>>,
    ) -> bool
        decreases polys.len() - i,
    {
        if i < 0 || i >= polys.len() {
            after == self && r == Ok::<Seq<FaceId>, SMeshError>(acc)
        } else {
            exists|mid: Graph, made: SMeshResult<FaceId>|
                #![trigger self.made_face(polys[i], mid, made)]
                self.made_face(polys[i], mid, made) && (match made {
                    Err(e) => after == mid && r == Err::<Seq<FaceId>, SMeshError>(e),
                    Ok(f) => mid.faces_made(polys, i + 1, acc.push(f), after, r),
                })
        }
    }
}

impl SMesh {
    /// The positions of the given vertices.
    pub fn positions_of(&self, vs: &Vec<VertexId>) -> (r: SMeshResult<Vec<Point3>>)
        ensures
            match r {
                Ok(ps) => self.world().positions(vs@, 0, Seq::empty()) == Ok::<
                    Seq<Point3>,
                    SMeshError,
                >(ps@) && ps@.len() == vs@.len(),
                Err(e) => self.world().positions(vs@, 0, Seq::empty()) == Err::<
                    Seq<Point3>,
                    SMeshError,
                >(e),
            },
    {
        let mut acc: Vec<Point3> = Vec::new();
        let mut i: usize = 0;
        while i < vs.len()
            invariant
                0 <= i <= vs@.len(),
                acc@.len() == i,
                self.world().positions(vs@, 0, Seq::empty()) == self.world().positions(
                    vs@,
                    i as int,
                    acc@,
                ),
            decreases vs@.len() - i,
        {
            let p = self.position(vs[i])?;
            acc.push(p);
            i += 1;
        }
        Ok(acc)
    }

    /// Adds an isolated vertex at each of the positions, in order.
    pub fn add_vertices(&mut self, ps: &Vec<Point3>) -> (news: Vec<VertexId>)
        requires
            old(self).room().vertices >= ps@.len(),
        ensures
            news@.len() == ps@.len(),
            fresh_vertices(old(self).graph(), news@),
            final(self).world() == old(self).world().with_copies(ps@, news@),
            forall|i: int|
                0 <= i < news@.len() ==> final(self).world().position(#[trigger] news@[i]) == Ok::<
                    Point3,
                    SMeshError,
                >(ps@[i]),
            forall|u: VertexId|
                old(self).graph().vertices.contains_key(u) ==> #[trigger] final(self).world().position(
                    u,
                ) == old(self).world().position(u),
            final(self).room().within(old(self).room(), ps@.len() as int, 0, 0),
            final(self).graph().halfedges == old(self).graph().halfedges,
            final(self).graph().faces == old(self).graph().faces,
            final(self).graph().n_halfedges == old(self).graph().n_halfedges,
            final(self).graph().n_faces == old(self).graph().n_faces,
            forall|v: VertexId| #[trigger]
                old(self).graph().vertices.contains_key(v) ==> final(self).graph().vertices.contains_key(
                    v,
                ) && final(self).graph().vertices[v] == old(self).graph().vertices[v],
    {
        let mut news: Vec<VertexId> = Vec::new();
        let mut i: usize = 0;
        while i < ps.len()
            invariant
                0 <= i <= ps@.len(),
                news@.len() == i,
                old(self).room().vertices >= ps@.len(),
                self.room().within(old(self).room(), i as int, 0, 0),
                fresh_vertices(old(self).graph(), news@),
                forall|k: int| 0 <= k < i ==> self.graph().vertices.contains_key(#[trigger] news@[k]),
                forall|v: VertexId| #[trigger]
                    old(self).graph().vertices.contains_key(v) ==> self.graph().vertices.contains_key(
                        v,
                    ) && self.graph().vertices[v] == old(self).graph().vertices[v],
                self.world() == old(self).world().with_copies(ps@.take(i as int), news@),
                self.graph().halfedges == old(self).graph().halfedges,
                self.graph().faces == old(self).graph().faces,
                self.graph().n_halfedges == old(self).graph().n_halfedges,
                self.graph().n_faces == old(self).graph().n_faces,
            decreases ps@.len() - i,
        {
            let ghost before = news@;
            let ghost g_before = self.graph();
            let v = self.add_vertex(ps[i]);
            news.push(v);
            proof {
                assert(ps@.take(i + 1).drop_last() =~= ps@.take(i as int));
                assert(news@.drop_last() =~= before);
                assert(ps@.take(i + 1).last() == ps@[i as int]);
                assert(self.graph().vertices == g_before.vertices.insert(
                    v,
                    Vertex { halfedge: None },
                ));
                assert forall|k: int| 0 <= k < news@.len() implies !old(self).graph().vertices.contains_key(
                    #[trigger] news@[k],
                ) by {
                    if k < i {
                        assert(news@[k] == before[k]);
                    }
                }
                assert forall|k: int, l: int| 0 <= k < l < news@.len() implies #[trigger] news@[k]
                    != #[trigger] news@[l] by {
                    if l < i {
                        assert(news@[k] == before[k]);
                        assert(news@[l] == before[l]);
                    } else {
                        assert(news@[k] == before[k]);
                        assert(g_before.vertices.contains_key(before[k]));
                    }
                }
                assert forall|k: int| 0 <= k < i + 1 implies self.graph().vertices.contains_key(
                    #[trigger] news@[k],
                ) by {
                    if k < i {
                        assert(news@[k] == before[k]);
                        assert(g_before.vertices.contains_key(before[k]));
                    }
                }
                assert forall|k: int| 0 <= k < news@.len() implies old(self).graph().vertex_free(
                    #[trigger] news@[k],
                ) by {
                    if k < i {
                        assert(news@[k] == before[k]);
                    } else {
                        assert forall|u: VertexId| #[trigger]
                            old(self).graph().vertices.contains_key(u) implies slot_of(u@)
                            != slot_of(v@) by {
                            assert(g_before.vertices.contains_key(u));
                        }
                    }
                }
                assert forall|k: int, l: int| 0 <= k < l < news@.len() implies slot_of(
                    (#[trigger] news@[k])@,
                ) != slot_of((#[trigger] news@[l])@) by {
                    assert(news@[k] == before[k]);
                    if l < i {
                        assert(news@[l] == before[l]);
                    } else {
                        assert(g_before.vertices.contains_key(before[k]));
                    }
                }
            }
            i += 1;
        }
        proof {
            assert(ps@.take(ps@.len() as int) =~= ps@);
            old(self).world().law_copies_have_positions(ps@, news@);
        }
        news
    }

    /// Constructs a face over each of the vertex lists, in order, and stops
    /// at the first that cannot be constructed.
    pub fn make_faces(&mut self, polys: &Vec<Vec<VertexId>>) -> (r: SMeshResult<Vec<FaceId>>)
        requires
            old(self).room().covers(
                0,
                2 * corner_count(polygons(polys@), 0),
                polys@.len() as int,
            ),
        ensures
            old(self).graph().faces_made(
                polygons(polys@),
                0,
                Seq::empty(),
                final(self).graph(),
                faces_view(r),
            ),
            final(self).attributes() == old(self).attributes(),
            final(self).room().within(
                old(self).room(),
                0,
                2 * corner_count(polygons(polys@), 0),
                polys@.len() as int,
            ),
            match r {
                Ok(fs) => fs@.len() == polys@.len(),
                Err(_) => true,
            },
    {
        let ghost ps = polygons(polys@);
        let ghost g0 = self.graph();
        let mut acc: Vec<FaceId> = Vec::new();
        let mut i: usize = 0;
        proof {
            lemma_corner_count_nonneg(ps, 0);
        }
        while i < polys.len()
            invariant
                0 <= i <= polys@.len(),
                acc@.len() == i,
                ps == polygons(polys@),
                g0 == old(self).graph(),
                self.attributes() == old(self).attributes(),
                0 <= corner_count(ps, i as int) <= corner_count(ps, 0),
                self.room().within(
                    old(self).room(),
                    0,
                    2 * corner_count(ps, 0) - 2 * corner_count(ps, i as int),
                    i as int,
                ),
                old(self).room().covers(0, 2 * corner_count(ps, 0), polys@.len() as int),
                forall|after: Graph, r: SMeshResult<Seq<FaceId>>|
                    #[trigger] self.graph().faces_made(ps, i as int, acc@, after, r)
                        ==> g0.faces_made(ps, 0, Seq::empty(), after, r),
            decreases polys@.len() - i,
        {
            let ghost before = self.graph();
            let ghost acc_before = acc@;
            let poly = copy_polygon(&polys[i]);
            proof {
                assert(ps[i as int] == polys@[i as int]@);
                assert(corner_count(ps, i as int) == ps[i as int].len() + corner_count(ps, i + 1));
                lemma_corner_count_nonneg(ps, i + 1);
                lemma_corner_count_nonneg(ps, 0);
            }
            let made = self.make_face(poly);
            match made {
                Err(e) => {
                    proof {
                        assert(before.made_face(ps[i as int], self.graph(), made));
                        assert(before.faces_made(
                            ps,
                            i as int,
                            acc_before,
                            self.graph(),
                            Err::<Seq<FaceId>, SMeshError>(e),
                        ));
                    }
                    return Err(e);
                },
                Ok(f) => {
                    acc.push(f);
                    proof {
                        assert forall|after: Graph, r: SMeshResult<Seq<FaceId>>|
                            #[trigger] self.graph().faces_made(
                                ps,
                                i + 1,
                                acc@,
                                after,
                                r,
                            ) implies g0.faces_made(ps, 0, Seq::empty(), after, r) by {
                            assert(before.made_face(ps[i as int], self.graph(), made));
                            assert(before.faces_made(ps, i as int, acc_before, after, r));
                        }
                    }
                },
            }
            i += 1;
        }
        proof {
            assert(self.graph().faces_made(
                ps,
                i as int,
                acc@,
                self.graph(),
                Ok::<Seq<FaceId>, SMeshError>(acc@),
            ));
        }
        Ok(acc)
    }
}

/// A copy of a vertex list.
pub fn copy_polygon(vs: &Vec<VertexId>) -> (r: Vec<VertexId>)
    ensures
        r@ == vs@,
{
    let mut r: Vec<VertexId> = Vec::new();
    let mut i: usize = 0;
    while i < vs.len()
        invariant
            0 <= i <= vs@.len(),
            r@ == vs@.take(i as int),
        decreases vs@.len() - i,
    {
        r.push(vs[i]);
        proof {
            assert(r@ =~= vs@.take(i + 1));
        }
        i += 1;
    }
    proof {
        assert(vs@.take(vs@.len() as int) =~= vs@);
    }
    r
}

} // verus!
