use vstd::prelude::*;
use crate::attribute::Point3;
use crate::error::{SMeshError, SMeshResult};
use crate::graph::Graph;
use crate::mesh::SMesh;
use crate::mesh_elements::{FaceId, VertexId};
use crate::world::{corner_count, fresh_vertices, polygons, World};

verus! {

/// The places as mathematical integers.
pub open spec fn corner_places(ts: Seq<(usize, usize, usize)>) -> Seq<(int, int, int)> {
    Seq::new(ts.len(), |k: int| (ts[k].0 as int, ts[k].1 as int, ts[k].2 as int))
}

/// The triangles over the vertices `vs` whose corners stand at the given
/// places.
pub open spec fn triangles_over(vs: Seq<VertexId>, ts: Seq<(int, int, int)>) -> Seq<Seq<VertexId>> {
    Seq::new(ts.len(), |k: int| seq![vs[ts[k].0], vs[ts[k].1], vs[ts[k].2]])
}

/// The corners of lists of three.
pub proof fn lemma_corner_count_triangles(a: Seq<Seq<VertexId>>, i: int)
    requires
        0 <= i <= a.len(),
        forall|k: int| 0 <= k < a.len() ==> (#[trigger] a[k]).len() == 3,
    ensures
        corner_count(a, i) == 3 * (a.len() - i),
    decreases a.len() - i,
{
    if i < a.len() {
        lemma_corner_count_triangles(a, i + 1);
    }
}

impl Graph {
    /// The graph `after` is what trying to construct a face over each of the
    /// vertex lists from the `i`-th on, in order, makes of this graph. A face
    /// that cannot be constructed is left out, and the work goes on.
    pub open spec fn faces_tried(self, polys: Seq<Seq<VertexId>>, i: int, after: Graph) -> bool
        decreases polys.len() - i,
    {
        if i < 0 || i >= polys.len() {
            after == self
        } else {
            exists|mid: Graph, made: SMeshResult<FaceId>|
                #![trigger self.made_face(polys[i], mid, made)]
                self.made_face(polys[i], mid, made) && mid.faces_tried(polys, i + 1, after)
        }
    }
}

impl Graph {
    /// Constructing a face over each of the vertex lists, in order, succeeds
    /// and gives the graph `after`.
    pub open spec fn all_faces_made(self, polys: Seq<Seq<VertexId>>, after: Graph) -> bool {
        exists|fs: Seq<FaceId>| #[trigger]
            self.faces_made(polys, 0, Seq::empty(), after, Ok::<Seq<FaceId>, SMeshError>(fs))
    }

    /// Constructing a face over each of the vertex lists, in order, stops
    /// with the error `e`.
    pub open spec fn some_face_refused(self, polys: Seq<Seq<VertexId>>, e: SMeshError) -> bool {
        exists|after: Graph| #[trigger]
            self.faces_made(polys, 0, Seq::empty(), after, Err::<Seq<FaceId>, SMeshError>(e))
    }
}

impl World {
    /// The mesh `built`, or the error, is what an empty mesh becomes when a
    /// vertex is added at each of the positions and then a triangle is
    /// constructed over the vertices at each of the triples of places, in
    /// order, up to the first that cannot be constructed.
    pub open spec fn fixture_built(
        ps: Seq<Point3>,
        ts: Seq<(int, int, int)>,
        vs: Seq<VertexId>,
        r: SMeshResult<World>,
    ) -> bool {
        let w0 = World { g: Graph::empty(), a: SMesh::fresh_attributes() };
        let w1 = w0.with_copies(ps, vs);
        &&& vs.len() == ps.len()
        &&& fresh_vertices(w0.g, vs)
        &&& (match r {
            Ok(built) => built.a == w1.a && w1.g.all_faces_made(triangles_over(vs, ts), built.g),
            Err(e) => w1.g.some_face_refused(triangles_over(vs, ts), e),
        })
    }

    /// The mesh `built` is what an empty mesh becomes when a vertex is added
    /// at each of the positions and then a triangle is tried over the
    /// vertices at each of the triples of places, in order.
    pub open spec fn fixture_tried(
        ps: Seq<Point3>,
        ts: Seq<(int, int, int)>,
        vs: Seq<VertexId>,
        built: World,
    ) -> bool {
        let w0 = World { g: Graph::empty(), a: SMesh::fresh_attributes() };
        let w1 = w0.with_copies(ps, vs);
        &&& vs.len() == ps.len()
        &&& fresh_vertices(w0.g, vs)
        &&& built.a == w1.a
        &&& w1.g.faces_tried(triangles_over(vs, ts), 0, built.g)
    }
}

/// The result of a fixture as a value.
pub open spec fn fixture_view(r: SMeshResult<SMesh>) -> SMeshResult<World> {
    match r {
        Ok(mesh) => Ok(mesh.world()),
        Err(e) => Err(e),
    }
}

fn triangles_of(vs: &Vec<VertexId>, ts: &Vec<(usize, usize, usize)>) -> (polys: Vec<Vec<VertexId>>)
    requires
        forall|k: int|
            0 <= k < ts@.len() ==> (#[trigger] ts@[k]).0 < vs@.len() && ts@[k].1 < vs@.len()
                && ts@[k].2 < vs@.len(),
    ensures
        polygons(polys@) == triangles_over(vs@, corner_places(ts@)),
        polys@.len() == ts@.len(),
        forall|k: int| 0 <= k < polys@.len() ==> (#[trigger] polys@[k])@.len() == 3,
{
    let mut polys: Vec<Vec<VertexId>> = Vec::new();
    let mut i: usize = 0;
    while i < ts.len()
        invariant
            0 <= i <= ts@.len(),
            polys@.len() == i,
            forall|k: int|
                0 <= k < ts@.len() ==> (#[trigger] ts@[k]).0 < vs@.len() && ts@[k].1 < vs@.len()
                    && ts@[k].2 < vs@.len(),
            forall|k: int|
                0 <= k < i ==> (#[trigger] polys@[k])@ == seq![
                    vs@[ts@[k].0 as int],
                    vs@[ts@[k].1 as int],
                    vs@[ts@[k].2 as int],
                ],
        decreases ts@.len() - i,
    {
        let t = ts[i];
        let mut tri: Vec<VertexId> = Vec::new();
        tri.push(vs[t.0]);
        tri.push(vs[t.1]);
        tri.push(vs[t.2]);
        proof {
            assert(tri@ =~= seq![vs@[t.0 as int], vs@[t.1 as int], vs@[t.2 as int]]);
        }
        polys.push(tri);
        i += 1;
    }
    proof {
        assert(polygons(polys@) =~= triangles_over(vs@, corner_places(ts@)));
    }
    polys
}

/// A mesh that was built from nothing with that many vertices and triangles
/// has room for all but those: each vertex took at most one slot, each
/// triangle at most six slots for halfedges and one for itself. The count of
/// the slots was kept.
pub open spec fn room_left(mesh: SMesh, vertices: int, triangles: int) -> bool {
    mesh.room().tallied && mesh.room().covers(
        u32::MAX - 1 - vertices,
        u32::MAX - 1 - 6 * triangles,
        u32::MAX - 1 - triangles,
    )
}

/// `room_left` for a fixture that was built.
pub open spec fn fixture_room(r: SMeshResult<SMesh>, vertices: int, triangles: int) -> bool {
    match r {
        Ok(mesh) => room_left(mesh, vertices, triangles),
        Err(_) => true,
    }
}

fn build_fixture(ps: Vec<Point3>, ts: Vec<(usize, usize, usize)>) -> (r: (
    SMeshResult<SMesh>,
    Ghost<Seq<VertexId>>,
))
    requires
        ps@.len() <= 1000,
        ts@.len() <= 1000,
        forall|k: int|
            0 <= k < ts@.len() ==> (#[trigger] ts@[k]).0 < ps@.len() && ts@[k].1 < ps@.len()
                && ts@[k].2 < ps@.len(),
    ensures
        World::fixture_built(ps@, corner_places(ts@), r.1@, fixture_view(r.0)),
        fixture_room(r.0, ps@.len() as int, ts@.len() as int),
{
    let mut mesh = SMesh::new();
    let vs = mesh.add_vertices(&ps);
    let polys = triangles_of(&vs, &ts);
    let ghost g1 = mesh.graph();
    proof {
        lemma_corner_count_triangles(polygons(polys@), 0);
    }
    let made = mesh.make_faces(&polys);
    match made {
        Ok(_) => {
            proof {
                assert(g1.all_faces_made(triangles_over(vs@, corner_places(ts@)), mesh.graph()));
            }
            (Ok(mesh), Ghost(vs@))
        },
        Err(e) => {
            proof {
                assert(g1.some_face_refused(triangles_over(vs@, corner_places(ts@)), e));
            }
            (Err(e), Ghost(vs@))
        },
    }
}

fn try_fixture(ps: Vec<Point3>, ts: Vec<(usize, usize, usize)>) -> (r: (SMesh, Ghost<Seq<VertexId>>))
    requires
        ps@.len() <= 1000,
        ts@.len() <= 1000,
        forall|k: int|
            0 <= k < ts@.len() ==> (#[trigger] ts@[k]).0 < ps@.len() && ts@[k].1 < ps@.len()
                && ts@[k].2 < ps@.len(),
    ensures
        World::fixture_tried(ps@, corner_places(ts@), r.1@, r.0.world()),
        room_left(r.0, ps@.len() as int, ts@.len() as int),
{
    let mut mesh = SMesh::new();
    let vs = mesh.add_vertices(&ps);
    let polys = triangles_of(&vs, &ts);
    let ghost g1 = mesh.graph();
    let ghost room1 = mesh.room();
    let ghost a1 = mesh.attributes();
    let ghost all = polygons(polys@);
    let mut i: usize = 0;
    while i < polys.len()
        invariant
            0 <= i <= polys@.len(),
            polys@.len() <= 1000,
            all == polygons(polys@),
            forall|k: int| 0 <= k < polys@.len() ==> (#[trigger] polys@[k])@.len() == 3,
            mesh.attributes() == a1,
            mesh.room().covers(0, 6 * (polys@.len() - i), polys@.len() - i),
            mesh.room().within(room1, 0, 6 * i, i as int),
            forall|after: Graph| #[trigger]
                mesh.graph().faces_tried(all, i as int, after) ==> g1.faces_tried(all, 0, after),
        decreases polys@.len() - i,
    {
        let ghost before = mesh.graph();
        let tri = crate::world::copy_polygon(&polys[i]);
        proof {
            assert(all[i as int] == polys@[i as int]@);
        }
        let made = mesh.make_face(tri);
        proof {
            assert forall|after: Graph| #[trigger]
                mesh.graph().faces_tried(all, i + 1, after) implies g1.faces_tried(
                all,
                0,
                after,
            ) by {
                assert(before.made_face(all[i as int], mesh.graph(), made));
                assert(before.faces_tried(all, i as int, after));
            }
        }
        i += 1;
    }
    proof {
        assert(mesh.graph().faces_tried(all, i as int, mesh.graph()));
    }
    (mesh, Ghost(vs@))
}

/// The positions of the vertices of the fixture, as bit patterns.
pub open spec fn vertex_onering_positions() -> Seq<Point3> {
    seq![
        Point3 { x: 0x3EE66660, y: 0x3F050581, z: 0x00000000 },
        Point3 { x: 0x3E999993, y: 0x3F050581, z: 0x00000000 },
        Point3 { x: 0x3F066664, y: 0x3EC78842, z: 0x00000000 },
        Point3 { x: 0x3EBFFFFB, y: 0x3EC78842, z: 0x00000000 },
        Point3 { x: 0x3E66665C, y: 0x3EC78842, z: 0x00000000 },
        Point3 { x: 0x3EE66664, y: 0x3E850581, z: 0x00000000 },
        Point3 { x: 0x3E999997, y: 0x3E850581, z: 0x00000000 },
    ]
}

/// The corners of the triangles of the fixture, as places in the list of its
/// vertices.
pub open spec fn vertex_onering_triangles() -> Seq<(int, int, int)> {
    seq![
        (3int, 0int, 1int),
        (3int, 2int, 0int),
        (4int, 3int, 1int),
        (5int, 2int, 3int),
        (6int, 5int, 3int),
        (6int, 3int, 4int),
    ]
}

fn vertex_onering_data() -> (r: (Vec<Point3>, Vec<(usize, usize, usize)>))
    ensures
        r.0@ == vertex_onering_positions(),
        corner_places(r.1@) == vertex_onering_triangles(),
        forall|k: int| 0 <= k < r.1@.len() ==> (#[trigger] r.1@[k]).0 < 7 && r.1@[k].1 < 7 && r.1@[k].2 < 7,
{
    let mut ps: Vec<Point3> = Vec::new();
    ps.push(Point3 { x: 0x3EE66660, y: 0x3F050581, z: 0x00000000 });
    ps.push(Point3 { x: 0x3E999993, y: 0x3F050581, z: 0x00000000 });
    ps.push(Point3 { x: 0x3F066664, y: 0x3EC78842, z: 0x00000000 });
    ps.push(Point3 { x: 0x3EBFFFFB, y: 0x3EC78842, z: 0x00000000 });
    ps.push(Point3 { x: 0x3E66665C, y: 0x3EC78842, z: 0x00000000 });
    ps.push(Point3 { x: 0x3EE66664, y: 0x3E850581, z: 0x00000000 });
    ps.push(Point3 { x: 0x3E999997, y: 0x3E850581, z: 0x00000000 });
    let mut ts: Vec<(usize, usize, usize)> = Vec::new();
    ts.push((3, 0, 1));
    ts.push((3, 2, 0));
    ts.push((4, 3, 1));
    ts.push((5, 2, 3));
    ts.push((6, 5, 3));
    ts.push((6, 3, 4));
    proof {
        assert(ps@ =~= vertex_onering_positions());
        assert(corner_places(ts@) =~= vertex_onering_triangles());
    }
    (ps, ts)
}

/// A centre vertex with a closed fan of six triangles around it.
pub fn vertex_onering() -> (r: SMeshResult<SMesh>)
    ensures
        exists|vs: Seq<VertexId>| #[trigger]
            World::fixture_built(
                vertex_onering_positions(),
                vertex_onering_triangles(),
                vs,
                fixture_view(r),
            ),
        fixture_room(
            r,
            vertex_onering_positions().len() as int,
            vertex_onering_triangles().len() as int,
        ),
{
    let data = vertex_onering_data();
    let built = build_fixture(data.0, data.1);
    proof {
        assert(data.0@.len() == vertex_onering_positions().len());
        assert(data.1@.len() == vertex_onering_triangles().len());
        assert(World::fixture_built(
            vertex_onering_positions(),
            vertex_onering_triangles(),
            built.1@,
            fixture_view(built.0),
        ));
    }
    built.0
}

/// The positions of the vertices of the fixture, as bit patterns.
pub open spec fn edge_onering_positions() -> Seq<Point3> {
    seq![
        Point3 { x: 0x3F199996, y: 0x3F050581, z: 0x00000000 },
        Point3 { x: 0x3EE66660, y: 0x3F050581, z: 0x00000000 },
        Point3 { x: 0x3E999993, y: 0x3F050581, z: 0x00000000 },
        Point3 { x: 0x3F2CCCCA, y: 0x3EC78842, z: 0x00000000 },
        Point3 { x: 0x3F066664, y: 0x3EC78842, z: 0x00000000 },
        Point3 { x: 0x3EBFFFFB, y: 0x3EC78842, z: 0x00000000 },
        Point3 { x: 0x3E66665C, y: 0x3EC78842, z: 0x00000000 },
        Point3 { x: 0x3F199998, y: 0x3E850581, z: 0x00000000 },
        Point3 { x: 0x3EE66664, y: 0x3E850581, z: 0x00000000 },
        Point3 { x: 0x3E999997, y: 0x3E850581, z: 0x00000000 },
    ]
}

/// The corners of the triangles of the fixture, as places in the list of its
/// vertices.
pub open spec fn edge_onering_triangles() -> Seq<(int, int, int)> {
    seq![
        (4int, 0int, 1int),
        (4int, 3int, 0int),
        (5int, 1int, 2int),
        (5int, 4int, 1int),
        (6int, 5int, 2int),
        (7int, 3int, 4int),
        (8int, 7int, 4int),
        (8int, 4int, 5int),
        (9int, 8int, 5int),
        (9int, 5int, 6int),
    ]
}

fn edge_onering_data() -> (r: (Vec<Point3>, Vec<(usize, usize, usize)>))
    ensures
        r.0@ == edge_onering_positions(),
        corner_places(r.1@) == edge_onering_triangles(),
        forall|k: int| 0 <= k < r.1@.len() ==> (#[trigger] r.1@[k]).0 < 10 && r.1@[k].1 < 10 && r.1@[k].2 < 10,
{
    let mut ps: Vec<Point3> = Vec::new();
    ps.push(Point3 { x: 0x3F199996, y: 0x3F050581, z: 0x00000000 });
    ps.push(Point3 { x: 0x3EE66660, y: 0x3F050581, z: 0x00000000 });
    ps.push(Point3 { x: 0x3E999993, y: 0x3F050581, z: 0x00000000 });
    ps.push(Point3 { x: 0x3F2CCCCA, y: 0x3EC78842, z: 0x00000000 });
    ps.push(Point3 { x: 0x3F066664, y: 0x3EC78842, z: 0x00000000 });
    ps.push(Point3 { x: 0x3EBFFFFB, y: 0x3EC78842, z: 0x00000000 });
    ps.push(Point3 { x: 0x3E66665C, y: 0x3EC78842, z: 0x00000000 });
    ps.push(Point3 { x: 0x3F199998, y: 0x3E850581, z: 0x00000000 });
    ps.push(Point3 { x: 0x3EE66664, y: 0x3E850581, z: 0x00000000 });
    ps.push(Point3 { x: 0x3E999997, y: 0x3E850581, z: 0x00000000 });
    let mut ts: Vec<(usize, usize, usize)> = Vec::new();
    ts.push((4, 0, 1));
    ts.push((4, 3, 0));
    ts.push((5, 1, 2));
    ts.push((5, 4, 1));
    ts.push((6, 5, 2));
    ts.push((7, 3, 4));
    ts.push((8, 7, 4));
    ts.push((8, 4, 5));
    ts.push((9, 8, 5));
    ts.push((9, 5, 6));
    proof {
        assert(ps@ =~= edge_onering_positions());
        assert(corner_places(ts@) =~= edge_onering_triangles());
    }
    (ps, ts)
}

/// A centre edge with the ten triangles around its two ends.
pub fn edge_onering() -> (r: SMeshResult<SMesh>)
    ensures
        exists|vs: Seq<VertexId>| #[trigger]
            World::fixture_built(
                edge_onering_positions(),
                edge_onering_triangles(),
                vs,
                fixture_view(r),
            ),
        fixture_room(
            r,
            edge_onering_positions().len() as int,
            edge_onering_triangles().len() as int,
        ),
{
    let data = edge_onering_data();
    let built = build_fixture(data.0, data.1);
    proof {
        assert(data.0@.len() == edge_onering_positions().len());
        assert(data.1@.len() == edge_onering_triangles().len());
        assert(World::fixture_built(
            edge_onering_positions(),
            edge_onering_triangles(),
            built.1@,
            fixture_view(built.0),
        ));
    }
    built.0
}

/// The positions of the vertices of the fixture, as bit patterns.
pub open spec fn texture_seams_positions() -> Seq<Point3> {
    seq![
        Point3 { x: 0x3F199996, y: 0x3F050581, z: 0x00000000 },
        Point3 { x: 0x3EE66660, y: 0x3F050581, z: 0xBA83126F },
        Point3 { x: 0x3E999993, y: 0x3F050581, z: 0x00000000 },
        Point3 { x: 0x3F2CCCCA, y: 0x3EC78842, z: 0xBA83126F },
        Point3 { x: 0x3F066664, y: 0x3EC78842, z: 0x00000000 },
        Point3 { x: 0x3EBFFFFB, y: 0x3EC78842, z: 0x00000000 },
        Point3 { x: 0x3E66665C, y: 0x3EC78842, z: 0x00000000 },
        Point3 { x: 0x3F199998, y: 0x3E850581, z: 0x00000000 },
        Point3 { x: 0x3EE66664, y: 0x3E850581, z: 0x00000000 },
        Point3 { x: 0x3E999997, y: 0x3E850581, z: 0x00000000 },
        Point3 { x: 0x3F3FFFF4, y: 0x3E850581, z: 0x00000000 },
        Point3 { x: 0x3F533330, y: 0x3EC78842, z: 0x00000000 },
        Point3 { x: 0x3F3FFFF4, y: 0x3F050581, z: 0x00000000 },
        Point3 { x: 0x3F2CCCCA, y: 0x3F264D2F, z: 0x00000000 },
        Point3 { x: 0x3F066664, y: 0x3F264D2F, z: 0x00000000 },
        Point3 { x: 0x3EBFFFFB, y: 0x3F264D2F, z: 0x00000000 },
    ]
}

/// The corners of the triangles of the fixture, as places in the list of its
/// vertices.
pub open spec fn texture_seams_triangles() -> Seq<(int, int, int)> {
    seq![
        (4int, 0int, 1int),
        (4int, 3int, 0int),
        (15int, 4int, 1int),
        (2int, 5int, 4int),
        (6int, 5int, 2int),
        (7int, 11int, 4int),
        (8int, 7int, 4int),
        (8int, 4int, 5int),
        (9int, 8int, 5int),
        (9int, 5int, 6int),
        (7int, 10int, 11int),
        (4int, 11int, 3int),
        (3int, 11int, 12int),
        (3int, 12int, 0int),
        (0int, 12int, 13int),
        (0int, 13int, 14int),
        (0int, 14int, 1int),
        (1int, 14int, 15int),
        (2int, 4int, 15int),
    ]
}

fn texture_seams_data() -> (r: (Vec<Point3>, Vec<(usize, usize, usize)>))
    ensures
        r.0@ == texture_seams_positions(),
        corner_places(r.1@) == texture_seams_triangles(),
        forall|k: int| 0 <= k < r.1@.len() ==> (#[trigger] r.1@[k]).0 < 16 && r.1@[k].1 < 16 && r.1@[k].2 < 16,
{
    let mut ps: Vec<Point3> = Vec::new();
    ps.push(Point3 { x: 0x3F199996, y: 0x3F050581, z: 0x00000000 });
    ps.push(Point3 { x: 0x3EE66660, y: 0x3F050581, z: 0xBA83126F });
    ps.push(Point3 { x: 0x3E999993, y: 0x3F050581, z: 0x00000000 });
    ps.push(Point3 { x: 0x3F2CCCCA, y: 0x3EC78842, z: 0xBA83126F });
    ps.push(Point3 { x: 0x3F066664, y: 0x3EC78842, z: 0x00000000 });
    ps.push(Point3 { x: 0x3EBFFFFB, y: 0x3EC78842, z: 0x00000000 });
    ps.push(Point3 { x: 0x3E66665C, y: 0x3EC78842, z: 0x00000000 });
    ps.push(Point3 { x: 0x3F199998, y: 0x3E850581, z: 0x00000000 });
    ps.push(Point3 { x: 0x3EE66664, y: 0x3E850581, z: 0x00000000 });
    ps.push(Point3 { x: 0x3E999997, y: 0x3E850581, z: 0x00000000 });
    ps.push(Point3 { x: 0x3F3FFFF4, y: 0x3E850581, z: 0x00000000 });
    ps.push(Point3 { x: 0x3F533330, y: 0x3EC78842, z: 0x00000000 });
    ps.push(Point3 { x: 0x3F3FFFF4, y: 0x3F050581, z: 0x00000000 });
    ps.push(Point3 { x: 0x3F2CCCCA, y: 0x3F264D2F, z: 0x00000000 });
    ps.push(Point3 { x: 0x3F066664, y: 0x3F264D2F, z: 0x00000000 });
    ps.push(Point3 { x: 0x3EBFFFFB, y: 0x3F264D2F, z: 0x00000000 });
    let mut ts: Vec<(usize, usize, usize)> = Vec::new();
    ts.push((4, 0, 1));
    ts.push((4, 3, 0));
    ts.push((15, 4, 1));
    ts.push((2, 5, 4));
    ts.push((6, 5, 2));
    ts.push((7, 11, 4));
    ts.push((8, 7, 4));
    ts.push((8, 4, 5));
    ts.push((9, 8, 5));
    ts.push((9, 5, 6));
    ts.push((7, 10, 11));
    ts.push((4, 11, 3));
    ts.push((3, 11, 12));
    ts.push((3, 12, 0));
    ts.push((0, 12, 13));
    ts.push((0, 13, 14));
    ts.push((0, 14, 1));
    ts.push((1, 14, 15));
    ts.push((2, 4, 15));
    proof {
        assert(ps@ =~= texture_seams_positions());
        assert(corner_places(ts@) =~= texture_seams_triangles());
    }
    (ps, ts)
}

/// A patch of triangles over sixteen vertices. Some of the triangles touch
/// others only at a vertex; a triangle that the mesh refuses is left out.
pub fn texture_seams_mesh() -> (mesh: SMesh)
    ensures
        exists|vs: Seq<VertexId>| #[trigger]
            World::fixture_tried(
                texture_seams_positions(),
                texture_seams_triangles(),
                vs,
                mesh.world(),
            ),
        room_left(
            mesh,
            texture_seams_positions().len() as int,
            texture_seams_triangles().len() as int,
        ),
{
    let data = texture_seams_data();
    let built = try_fixture(data.0, data.1);
    proof {
        assert(data.0@.len() == texture_seams_positions().len());
        assert(data.1@.len() == texture_seams_triangles().len());
        assert(World::fixture_tried(
            texture_seams_positions(),
            texture_seams_triangles(),
            built.1@,
            built.0.world(),
        ));
    }
    built.0
}

} // verus!
