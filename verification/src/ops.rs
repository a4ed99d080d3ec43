use vstd::prelude::*;
use crate::attribute::Point3;
use crate::connectivity::Connectivity;
use crate::error::SMeshResult;
use crate::graph::{Graph, Turn};
use crate::mesh::SMesh;
use crate::mesh_elements::{FaceId, HalfedgeId, VertexId};
use crate::mesh_query::{MeshQueryBuilder, QueryOp, QueryParam, RunQuery, ToMeshQueryBuilder};

verus! {

impl Graph {
    /// The halfedges around the vertex that a query leads to, from the
    /// vertex's stored halfedge on. Empty where the query or the step to
    /// the stored halfedge fails.
    pub open spec fn query_vertex_ring(self, at: QueryParam, ops: Seq<QueryOp>) -> Seq<HalfedgeId> {
        match self.query_halfedge(at, ops.push(QueryOp::Halfedge)) {
            Ok(h) => self.orbit(Turn::Ccw, h),
            Err(_) => Seq::empty(),
        }
    }

    /// The halfedges of the face that a query leads to, from the face's
    /// stored halfedge on. Empty where the query or the step to the stored
    /// halfedge fails.
    pub open spec fn query_face_ring(self, at: QueryParam, ops: Seq<QueryOp>) -> Seq<HalfedgeId> {
        match self.query_halfedge(at, ops.push(QueryOp::Halfedge)) {
            Ok(h) => self.orbit(Turn::Next, h),
            Err(_) => Seq::empty(),
        }
    }

    /// A query that starts at a vertex and takes the step to its stored
    /// halfedge gives what the vertex stores.
    pub proof fn lemma_query_vertex_halfedge(self, v: VertexId)
        ensures
            self.query_halfedge(QueryParam::Vertex(v), seq![QueryOp::Halfedge])
                == self.vertex_halfedge(v),
            self.query_vertex_ring(QueryParam::Vertex(v), Seq::empty()) == self.vertex_halfedges(v),
    {
        reveal_with_fuel(Graph::eval_ops, 3);
        assert(Seq::<QueryOp>::empty().push(QueryOp::Halfedge) =~= seq![QueryOp::Halfedge]);
    }

    /// A query that starts at a face and takes the step to its stored
    /// halfedge gives what the face stores.
    pub proof fn lemma_query_face_halfedge(self, f: FaceId)
        ensures
            self.query_halfedge(QueryParam::Face(f), seq![QueryOp::Halfedge]) == self.face_halfedge(
                f,
            ),
            self.query_face_ring(QueryParam::Face(f), Seq::empty()) == self.face_halfedges(f),
    {
        reveal_with_fuel(Graph::eval_ops, 3);
        assert(Seq::<QueryOp>::empty().push(QueryOp::Halfedge) =~= seq![QueryOp::Halfedge]);
    }

    /// A query of one step from a halfedge gives what the halfedge stores.
    pub proof fn lemma_query_halfedge_steps(self, h: HalfedgeId)
        ensures
            self.query_vertex(QueryParam::Halfedge(h), seq![QueryOp::Vertex]) == self.he_vertex(h),
            self.query_halfedge(QueryParam::Halfedge(h), seq![QueryOp::Opposite])
                == self.he_opposite(h),
            self.query_halfedge(QueryParam::Halfedge(h), seq![QueryOp::Next]) == self.he_next(h),
            self.query_halfedge(QueryParam::Halfedge(h), seq![QueryOp::Previous]) == self.he_prev(
                h,
            ),
            self.query_face(QueryParam::Halfedge(h), seq![QueryOp::Face]) == self.he_face(h),
    {
        reveal_with_fuel(Graph::eval_ops, 3);
    }
}

/// The queries that start at a vertex.
pub trait VertexOps: Sized {
    /// The element that the query so far starts from.
    spec fn origin_of(&self) -> QueryParam;

    /// The steps of the query so far.
    spec fn trail_of(&self) -> Seq<QueryOp>;

    /// Then to the outgoing halfedge that the vertex stores.
    fn halfedge(&self) -> (b: MeshQueryBuilder<HalfedgeId>)
        ensures
            b.origin() == self.origin_of(),
            b.trail() == self.trail_of().push(QueryOp::Halfedge),
    ;

    /// Then to the halfedge that leads to `dst_vertex`.
    fn halfedge_to(&self, dst_vertex: VertexId) -> (b: MeshQueryBuilder<HalfedgeId>)
        ensures
            b.origin() == self.origin_of(),
            b.trail() == self.trail_of().push(QueryOp::HalfedgeTo(dst_vertex)),
    ;

    /// Whether the vertex has no ring of halfedges, or one of the halfedges
    /// that leave it is on the boundary.
    fn is_boundary(&self, mesh: &SMesh) -> (r: bool)
        ensures
            r == (mesh.graph().query_vertex_ring(self.origin_of(), self.trail_of()).len() == 0
                || mesh.graph().boundary_count(
                mesh.graph().query_vertex_ring(self.origin_of(), self.trail_of()),
            ) > 0),
    ;

    /// Whether no outgoing halfedge can be read from the vertex.
    fn is_isolated(&self, mesh: &SMesh) -> (r: bool)
        ensures
            r == (mesh.graph().query_halfedge(
                self.origin_of(),
                self.trail_of().push(QueryOp::Halfedge),
            ) is Err),
    ;

    /// The number of neighbours of the vertex.
    fn valence(self, mesh: &SMesh) -> (n: usize)
        ensures
            n == mesh.graph().targets(
                mesh.graph().query_vertex_ring(self.origin_of(), self.trail_of()),
            ).len(),
    ;

    /// Whether fewer than two of the halfedges that leave the vertex are on
    /// the boundary.
    fn is_manifold(&self, mesh: &SMesh) -> (r: bool)
        ensures
            r == (mesh.graph().boundary_count(
                mesh.graph().query_vertex_ring(self.origin_of(), self.trail_of()),
            ) < 2),
    ;

    /// The position of the vertex.
    fn position(self, mesh: &SMesh) -> (r: SMeshResult<Point3>)
        ensures
            r == (match mesh.graph().query_vertex(self.origin_of(), self.trail_of()) {
                Ok(v) => mesh.position_of(v),
                Err(e) => Err(e),
            }),
    ;

    /// The normal of the vertex.
    fn normal(self, mesh: &SMesh) -> (r: SMeshResult<Point3>)
        ensures
            r == (match mesh.graph().query_vertex(self.origin_of(), self.trail_of()) {
                Ok(v) => mesh.vertex_normal_of(v),
                Err(e) => Err(e),
            }),
    ;
}

impl VertexOps for MeshQueryBuilder<VertexId> {
    open spec fn origin_of(&self) -> QueryParam {
        self.origin()
    }

    open spec fn trail_of(&self) -> Seq<QueryOp> {
        self.trail()
    }

    fn halfedge(&self) -> (b: MeshQueryBuilder<HalfedgeId>) {
        self.push(QueryOp::Halfedge)
    }

    fn halfedge_to(&self, dst_vertex: VertexId) -> (b: MeshQueryBuilder<HalfedgeId>) {
        self.push(QueryOp::HalfedgeTo(dst_vertex))
    }

    fn is_boundary(&self, mesh: &SMesh) -> (r: bool) {
        let hs = self.copy::<VertexId>().halfedges(mesh);
        hs.len() == 0 || mesh.connectivity.boundary_count(&hs) > 0
    }

    fn is_isolated(&self, mesh: &SMesh) -> (r: bool) {
        self.halfedge().run(mesh).is_err()
    }

    fn valence(self, mesh: &SMesh) -> (n: usize) {
        self.vertices(mesh).len()
    }

    fn is_manifold(&self, mesh: &SMesh) -> (r: bool) {
        let hs = self.copy::<VertexId>().halfedges(mesh);
        mesh.connectivity.boundary_count(&hs) < 2
    }

    fn position(self, mesh: &SMesh) -> (r: SMeshResult<Point3>) {
        let v = self.run(mesh)?;
        mesh.position(v)
    }

    fn normal(self, mesh: &SMesh) -> (r: SMeshResult<Point3>) {
        let v = self.run(mesh)?;
        mesh.vertex_normal(v)
    }
}

impl VertexOps for VertexId {
    open spec fn origin_of(&self) -> QueryParam {
        QueryParam::Vertex(*self)
    }

    open spec fn trail_of(&self) -> Seq<QueryOp> {
        Seq::empty()
    }

    fn halfedge(&self) -> (b: MeshQueryBuilder<HalfedgeId>) {
        self.q().halfedge()
    }

    fn halfedge_to(&self, dst_vertex: VertexId) -> (b: MeshQueryBuilder<HalfedgeId>) {
        self.q().halfedge_to(dst_vertex)
    }

    fn is_boundary(&self, mesh: &SMesh) -> (r: bool) {
        self.q().is_boundary(mesh)
    }

    fn is_isolated(&self, mesh: &SMesh) -> (r: bool) {
        self.q().is_isolated(mesh)
    }

    fn valence(self, mesh: &SMesh) -> (n: usize) {
        self.q().valence(mesh)
    }

    fn is_manifold(&self, mesh: &SMesh) -> (r: bool) {
        self.q().is_manifold(mesh)
    }

    fn position(self, mesh: &SMesh) -> (r: SMeshResult<Point3>) {
        self.q().position(mesh)
    }

    fn normal(self, mesh: &SMesh) -> (r: SMeshResult<Point3>) {
        self.q().normal(mesh)
    }
}

/// The queries that start at a halfedge.
pub trait HalfedgeOps: Sized {
    /// The element that the query so far starts from.
    spec fn origin_of(&self) -> QueryParam;

    /// The steps of the query so far.
    spec fn trail_of(&self) -> Seq<QueryOp>;

    /// Then to the vertex that the halfedge points to.
    fn vert(&self) -> (b: MeshQueryBuilder<VertexId>)
        ensures
            b.origin() == self.origin_of(),
            b.trail() == self.trail_of().push(QueryOp::Vertex),
    ;

    fn opposite(&self) -> (b: MeshQueryBuilder<HalfedgeId>)
        ensures
            b.origin() == self.origin_of(),
            b.trail() == self.trail_of().push(QueryOp::Opposite),
    ;

    fn next(&self) -> (b: MeshQueryBuilder<HalfedgeId>)
        ensures
            b.origin() == self.origin_of(),
            b.trail() == self.trail_of().push(QueryOp::Next),
    ;

    fn prev(&self) -> (b: MeshQueryBuilder<HalfedgeId>)
        ensures
            b.origin() == self.origin_of(),
            b.trail() == self.trail_of().push(QueryOp::Previous),
    ;

    /// Then to the face of the halfedge.
    fn face(&self) -> (b: MeshQueryBuilder<FaceId>)
        ensures
            b.origin() == self.origin_of(),
            b.trail() == self.trail_of().push(QueryOp::Face),
    ;

    /// Then around the source vertex: to the previous halfedge's opposite.
    fn ccw_rotated_neighbour(&self) -> (b: MeshQueryBuilder<HalfedgeId>)
        ensures
            b.origin() == self.origin_of(),
            b.trail() == self.trail_of().push(QueryOp::Previous).push(QueryOp::Opposite),
    ;

    /// Then around the source vertex, the other way: to the opposite's next.
    fn cw_rotated_neighbour(&self) -> (b: MeshQueryBuilder<HalfedgeId>)
        ensures
            b.origin() == self.origin_of(),
            b.trail() == self.trail_of().push(QueryOp::Opposite).push(QueryOp::Next),
    ;

    /// Then to the vertex that the halfedge leaves.
    fn src_vert(&self) -> (b: MeshQueryBuilder<VertexId>)
        ensures
            b.origin() == self.origin_of(),
            b.trail() == self.trail_of().push(QueryOp::Opposite).push(QueryOp::Vertex),
    ;

    /// Then to the vertex that the halfedge points to.
    fn dst_vert(&self) -> (b: MeshQueryBuilder<VertexId>)
        ensures
            b.origin() == self.origin_of(),
            b.trail() == self.trail_of().push(QueryOp::Vertex),
    ;

    /// Whether no face can be read from the halfedge.
    fn is_boundary(&self, mesh: &SMesh) -> (r: bool)
        ensures
            r == (mesh.graph().query_face(self.origin_of(), self.trail_of().push(QueryOp::Face))
                is Err),
    ;

    /// `is_boundary` on connectivity alone.
    fn is_boundary_c(&self, connectivity: &Connectivity) -> (r: bool)
        ensures
            r == (connectivity@.query_face(self.origin_of(), self.trail_of().push(QueryOp::Face))
                is Err),
    ;
}

impl HalfedgeOps for MeshQueryBuilder<HalfedgeId> {
    open spec fn origin_of(&self) -> QueryParam {
        self.origin()
    }

    open spec fn trail_of(&self) -> Seq<QueryOp> {
        self.trail()
    }

    fn vert(&self) -> (b: MeshQueryBuilder<VertexId>) {
        self.push(QueryOp::Vertex)
    }

    fn opposite(&self) -> (b: MeshQueryBuilder<HalfedgeId>) {
        self.push(QueryOp::Opposite)
    }

    fn next(&self) -> (b: MeshQueryBuilder<HalfedgeId>) {
        self.push(QueryOp::Next)
    }

    fn prev(&self) -> (b: MeshQueryBuilder<HalfedgeId>) {
        self.push(QueryOp::Previous)
    }

    fn face(&self) -> (b: MeshQueryBuilder<FaceId>) {
        self.push(QueryOp::Face)
    }

    fn ccw_rotated_neighbour(&self) -> (b: MeshQueryBuilder<HalfedgeId>) {
        self.prev().opposite()
    }

    fn cw_rotated_neighbour(&self) -> (b: MeshQueryBuilder<HalfedgeId>) {
        self.opposite().next()
    }

    fn src_vert(&self) -> (b: MeshQueryBuilder<VertexId>) {
        self.opposite().vert()
    }

    fn dst_vert(&self) -> (b: MeshQueryBuilder<VertexId>) {
        self.vert()
    }

    fn is_boundary(&self, mesh: &SMesh) -> (r: bool) {
        self.face().run(mesh).is_err()
    }

    fn is_boundary_c(&self, connectivity: &Connectivity) -> (r: bool) {
        self.face().run(connectivity).is_err()
    }
}

impl HalfedgeOps for HalfedgeId {
    open spec fn origin_of(&self) -> QueryParam {
        QueryParam::Halfedge(*self)
    }

    open spec fn trail_of(&self) -> Seq<QueryOp> {
        Seq::empty()
    }

    fn vert(&self) -> (b: MeshQueryBuilder<VertexId>) {
        self.q().vert()
    }

    fn opposite(&self) -> (b: MeshQueryBuilder<HalfedgeId>) {
        self.q().opposite()
    }

    fn next(&self) -> (b: MeshQueryBuilder<HalfedgeId>) {
        self.q().next()
    }

    fn prev(&self) -> (b: MeshQueryBuilder<HalfedgeId>) {
        self.q().prev()
    }

    fn face(&self) -> (b: MeshQueryBuilder<FaceId>) {
        self.q().face()
    }

    fn ccw_rotated_neighbour(&self) -> (b: MeshQueryBuilder<HalfedgeId>) {
        self.q().ccw_rotated_neighbour()
    }

    fn cw_rotated_neighbour(&self) -> (b: MeshQueryBuilder<HalfedgeId>) {
        self.q().cw_rotated_neighbour()
    }

    fn src_vert(&self) -> (b: MeshQueryBuilder<VertexId>) {
        self.q().src_vert()
    }

    fn dst_vert(&self) -> (b: MeshQueryBuilder<VertexId>) {
        self.q().dst_vert()
    }

    fn is_boundary(&self, mesh: &SMesh) -> (r: bool) {
        self.q().is_boundary(mesh)
    }

    fn is_boundary_c(&self, connectivity: &Connectivity) -> (r: bool) {
        self.q().is_boundary_c(connectivity)
    }
}

/// The queries that start at a face.
pub trait FaceOps: Sized {
    /// The element that the query so far starts from.
    spec fn origin_of(&self) -> QueryParam;

    /// The steps of the query so far.
    spec fn trail_of(&self) -> Seq<QueryOp>;

    /// Then to the halfedge that the face stores.
    fn halfedge(&self) -> (b: MeshQueryBuilder<HalfedgeId>)
        ensures
            b.origin() == self.origin_of(),
            b.trail() == self.trail_of().push(QueryOp::Halfedge),
    ;

    /// The number of corners of the face.
    fn valence(self, mesh: &SMesh) -> (n: usize)
        ensures
            n == mesh.graph().targets(
                mesh.graph().query_face_ring(self.origin_of(), self.trail_of()),
            ).len(),
    ;

    /// The normal of the face.
    fn normal(self, mesh: &SMesh) -> (r: SMeshResult<Point3>)
        ensures
            r == (match mesh.graph().query_face(self.origin_of(), self.trail_of()) {
                Ok(f) => mesh.face_normal_of(f),
                Err(e) => Err(e),
            }),
    ;
}

impl FaceOps for MeshQueryBuilder<FaceId> {
    open spec fn origin_of(&self) -> QueryParam {
        self.origin()
    }

    open spec fn trail_of(&self) -> Seq<QueryOp> {
        self.trail()
    }

    fn halfedge(&self) -> (b: MeshQueryBuilder<HalfedgeId>) {
        self.push(QueryOp::Halfedge)
    }

    fn valence(self, mesh: &SMesh) -> (n: usize) {
        self.vertices(mesh).len()
    }

    fn normal(self, mesh: &SMesh) -> (r: SMeshResult<Point3>) {
        let f = self.run(mesh)?;
        mesh.face_normal(f)
    }
}

impl FaceOps for FaceId {
    open spec fn origin_of(&self) -> QueryParam {
        QueryParam::Face(*self)
    }

    open spec fn trail_of(&self) -> Seq<QueryOp> {
        Seq::empty()
    }

    fn halfedge(&self) -> (b: MeshQueryBuilder<HalfedgeId>) {
        self.q().halfedge()
    }

    fn valence(self, mesh: &SMesh) -> (n: usize) {
        self.q().valence(mesh)
    }

    fn normal(self, mesh: &SMesh) -> (r: SMeshResult<Point3>) {
        self.q().normal(mesh)
    }
}

/// The rings around a vertex. Each is a finite sequence that starts at the
/// vertex's stored halfedge and ends when the walk comes back to it.
pub trait VertexIterators: Sized {
    /// The element that the query so far starts from.
    spec fn ring_origin(&self) -> QueryParam;

    /// The steps of the query so far.
    spec fn ring_trail(&self) -> Seq<QueryOp>;

    /// The neighbours of the vertex.
    fn vertices(self, mesh: &SMesh) -> (vs: Vec<VertexId>)
        ensures
            vs@ == mesh.graph().targets(
                mesh.graph().query_vertex_ring(self.ring_origin(), self.ring_trail()),
            ),
    ;

    /// The halfedges that leave the vertex.
    fn halfedges(self, mesh: &SMesh) -> (hs: Vec<HalfedgeId>)
        ensures
            hs@ == mesh.graph().query_vertex_ring(self.ring_origin(), self.ring_trail()),
    ;

    /// The faces around the vertex.
    fn faces(self, mesh: &SMesh) -> (fs: Vec<FaceId>)
        ensures
            fs@ == mesh.graph().faces_of(
                mesh.graph().query_vertex_ring(self.ring_origin(), self.ring_trail()),
            ),
    ;
}

impl VertexIterators for MeshQueryBuilder<VertexId> {
    open spec fn ring_origin(&self) -> QueryParam {
        self.origin()
    }

    open spec fn ring_trail(&self) -> Seq<QueryOp> {
        self.trail()
    }

    fn vertices(self, mesh: &SMesh) -> (vs: Vec<VertexId>) {
        let hs = self.halfedges(mesh);
        mesh.connectivity.targets(&hs)
    }

    fn halfedges(self, mesh: &SMesh) -> (hs: Vec<HalfedgeId>) {
        match self.halfedge().run(mesh) {
            Ok(start) => mesh.connectivity.orbit(Turn::Ccw, start),
            Err(_) => Vec::new(),
        }
    }

    fn faces(self, mesh: &SMesh) -> (fs: Vec<FaceId>) {
        let hs = self.halfedges(mesh);
        mesh.connectivity.faces_of(&hs)
    }
}

impl VertexIterators for VertexId {
    open spec fn ring_origin(&self) -> QueryParam {
        QueryParam::Vertex(*self)
    }

    open spec fn ring_trail(&self) -> Seq<QueryOp> {
        Seq::empty()
    }

    fn vertices(self, mesh: &SMesh) -> (vs: Vec<VertexId>) {
        self.q().vertices(mesh)
    }

    fn halfedges(self, mesh: &SMesh) -> (hs: Vec<HalfedgeId>) {
        self.q().halfedges(mesh)
    }

    fn faces(self, mesh: &SMesh) -> (fs: Vec<FaceId>) {
        self.q().faces(mesh)
    }
}

/// The rings of a face. Each is a finite sequence that starts at the face's
/// stored halfedge and ends when the walk comes back to it.
pub trait FaceIterators: Sized {
    /// The element that the query so far starts from.
    spec fn ring_origin(&self) -> QueryParam;

    /// The steps of the query so far.
    spec fn ring_trail(&self) -> Seq<QueryOp>;

    /// The corners of the face, in winding order.
    fn vertices(self, mesh: &SMesh) -> (vs: Vec<VertexId>)
        ensures
            vs@ == mesh.graph().targets(
                mesh.graph().query_face_ring(self.ring_origin(), self.ring_trail()),
            ),
    ;

    /// The halfedges of the face's loop.
    fn halfedges(self, mesh: &SMesh) -> (hs: Vec<HalfedgeId>)
        ensures
            hs@ == mesh.graph().query_face_ring(self.ring_origin(), self.ring_trail()),
    ;
}

impl FaceIterators for MeshQueryBuilder<FaceId> {
    open spec fn ring_origin(&self) -> QueryParam {
        self.origin()
    }

    open spec fn ring_trail(&self) -> Seq<QueryOp> {
        self.trail()
    }

    fn vertices(self, mesh: &SMesh) -> (vs: Vec<VertexId>) {
        let hs = self.halfedges(mesh);
        mesh.connectivity.targets(&hs)
    }

    fn halfedges(self, mesh: &SMesh) -> (hs: Vec<HalfedgeId>) {
        match self.halfedge().run(mesh) {
            Ok(start) => mesh.connectivity.orbit(Turn::Next, start),
            Err(_) => Vec::new(),
        }
    }
}

impl FaceIterators for FaceId {
    open spec fn ring_origin(&self) -> QueryParam {
        QueryParam::Face(*self)
    }

    open spec fn ring_trail(&self) -> Seq<QueryOp> {
        Seq::empty()
    }

    fn vertices(self, mesh: &SMesh) -> (vs: Vec<VertexId>) {
        self.q().vertices(mesh)
    }

    fn halfedges(self, mesh: &SMesh) -> (hs: Vec<HalfedgeId>) {
        self.q().halfedges(mesh)
    }
}

} // verus!
