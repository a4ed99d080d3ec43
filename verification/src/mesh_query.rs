use vstd::prelude::*;
use std::marker::PhantomData;
use crate::connectivity::Connectivity;
use crate::error::{SMeshError, SMeshResult};
use crate::graph::Graph;
use crate::mesh::SMesh;
use crate::mesh_elements::{FaceId, HalfedgeId, VertexId};

verus! {

/// The element that a query has reached.
#[derive(Debug, Clone, Copy, PartialEq)]
pub enum QueryParam {
    Vertex(VertexId),
    Halfedge(HalfedgeId),
    Face(FaceId),
}

/// One navigation step of a query.
#[derive(Debug, Clone, Copy, PartialEq)]
pub enum QueryOp {
    /// From a halfedge to the vertex it points to.
    Vertex,
    /// From a vertex or a face to the halfedge it stores.
    Halfedge,
    Opposite,
    Next,
    Previous,
    /// From a halfedge to its face.
    Face,
    /// From a vertex to the halfedge that leads to the given vertex.
    HalfedgeTo(VertexId),
}

/// A query: the element it starts from and the steps to take from there. It
/// is a value of its own and reads no mesh until it is run on one. `T` is
/// the kind of identifier that the steps lead to.
#[derive(Debug, PartialEq)]
pub struct MeshQueryBuilder<T> {
    initial: QueryParam,
    history: Vec<QueryOp>,
    phantom_data: PhantomData<T>,
}

impl Graph {
    /// One step from a vertex.
    pub open spec fn eval_vertex_op(self, id: VertexId, op: QueryOp) -> SMeshResult<QueryParam> {
        if !self.vertices.contains_key(id) {
            Err(SMeshError::VertexNotFound(id))
        } else {
            match op {
                QueryOp::Halfedge => match self.vertex_halfedge(id) {
                    Ok(h) => Ok(QueryParam::Halfedge(h)),
                    Err(e) => Err(e),
                },
                QueryOp::HalfedgeTo(dst) => match self.halfedge_to(id, dst) {
                    Ok(h) => Ok(QueryParam::Halfedge(h)),
                    Err(e) => Err(e),
                },
                _ => Err(SMeshError::UnsupportedOperation),
            }
        }
    }

    /// One step from a halfedge.
    pub open spec fn eval_halfedge_op(self, id: HalfedgeId, op: QueryOp) -> SMeshResult<QueryParam> {
        if !self.halfedges.contains_key(id) {
            Err(SMeshError::HalfedgeNotFound(id))
        } else {
            match op {
                QueryOp::Vertex => Ok(QueryParam::Vertex(self.halfedges[id].vertex)),
                QueryOp::Opposite => match self.he_opposite(id) {
                    Ok(h) => Ok(QueryParam::Halfedge(h)),
                    Err(e) => Err(e),
                },
                QueryOp::Next => match self.he_next(id) {
                    Ok(h) => Ok(QueryParam::Halfedge(h)),
                    Err(e) => Err(e),
                },
                QueryOp::Previous => match self.he_prev(id) {
                    Ok(h) => Ok(QueryParam::Halfedge(h)),
                    Err(e) => Err(e),
                },
                QueryOp::Face => match self.he_face(id) {
                    Ok(f) => Ok(QueryParam::Face(f)),
                    Err(e) => Err(e),
                },
                _ => Err(SMeshError::UnsupportedOperation),
            }
        }
    }

    /// One step from a face.
    pub open spec fn eval_face_op(self, id: FaceId, op: QueryOp) -> SMeshResult<QueryParam> {
        if !self.faces.contains_key(id) {
            Err(SMeshError::FaceNotFound(id))
        } else {
            match op {
                QueryOp::Halfedge => match self.face_halfedge(id) {
                    Ok(h) => Ok(QueryParam::Halfedge(h)),
                    Err(e) => Err(e),
                },
                _ => Err(SMeshError::UnsupportedOperation),
            }
        }
    }

    /// One step from any element.
    pub open spec fn eval_op(self, at: QueryParam, op: QueryOp) -> SMeshResult<QueryParam> {
        match at {
            QueryParam::Vertex(id) => self.eval_vertex_op(id, op),
            QueryParam::Halfedge(id) => self.eval_halfedge_op(id, op),
            QueryParam::Face(id) => self.eval_face_op(id, op),
        }
    }

    /// The steps from the `i`-th on, taken from `at`: the element reached, or
    /// the error of the first step that fails.
    pub open spec fn eval_ops(self, at: QueryParam, ops: Seq<QueryOp>, i: int) -> SMeshResult<
        QueryParam,
    >
        decreases ops.len() - i,
    {
        if i < 0 || i >= ops.len() {
            Ok(at)
        } else {
            match self.eval_op(at, ops[i]) {
                Err(e) => Err(e),
                Ok(reached) => self.eval_ops(reached, ops, i + 1),
            }
        }
    }

    /// The vertex that the steps lead to.
    pub open spec fn query_vertex(self, at: QueryParam, ops: Seq<QueryOp>) -> SMeshResult<VertexId> {
        match self.eval_ops(at, ops, 0) {
            Err(e) => Err(e),
            Ok(QueryParam::Vertex(id)) => Ok(id),
            Ok(_) => Err(SMeshError::DefaultError),
        }
    }

    /// The halfedge that the steps lead to.
    pub open spec fn query_halfedge(self, at: QueryParam, ops: Seq<QueryOp>) -> SMeshResult<
        HalfedgeId,
    > {
        match self.eval_ops(at, ops, 0) {
            Err(e) => Err(e),
            Ok(QueryParam::Halfedge(id)) => Ok(id),
            Ok(_) => Err(SMeshError::DefaultError),
        }
    }

    /// The face that the steps lead to.
    pub open spec fn query_face(self, at: QueryParam, ops: Seq<QueryOp>) -> SMeshResult<FaceId> {
        match self.eval_ops(at, ops, 0) {
            Err(e) => Err(e),
            Ok(QueryParam::Face(id)) => Ok(id),
            Ok(_) => Err(SMeshError::DefaultError),
        }
    }
}

fn eval_vertex_op(c: &Connectivity, id: VertexId, op: QueryOp) -> (r: SMeshResult<QueryParam>)
    ensures
        r == c@.eval_vertex_op(id, op),
{
    let _ = c.vert(id)?;
    match op {
        QueryOp::Halfedge => Ok(QueryParam::Halfedge(c.vertex_halfedge(id)?)),
        QueryOp::HalfedgeTo(dst) => Ok(QueryParam::Halfedge(c.halfedge_to(id, dst)?)),
        _ => Err(SMeshError::UnsupportedOperation),
    }
}

fn eval_halfedge_op(c: &Connectivity, id: HalfedgeId, op: QueryOp) -> (r: SMeshResult<QueryParam>)
    ensures
        r == c@.eval_halfedge_op(id, op),
{
    let rec = c.he(id)?;
    match op {
        QueryOp::Vertex => Ok(QueryParam::Vertex(rec.vertex)),
        QueryOp::Opposite => Ok(QueryParam::Halfedge(c.he_opposite(id)?)),
        QueryOp::Next => Ok(QueryParam::Halfedge(c.he_next(id)?)),
        QueryOp::Previous => Ok(QueryParam::Halfedge(c.he_prev(id)?)),
        QueryOp::Face => Ok(QueryParam::Face(c.he_face(id)?)),
        _ => Err(SMeshError::UnsupportedOperation),
    }
}

fn eval_face_op(c: &Connectivity, id: FaceId, op: QueryOp) -> (r: SMeshResult<QueryParam>)
    ensures
        r == c@.eval_face_op(id, op),
{
    let _ = c.face(id)?;
    match op {
        QueryOp::Halfedge => Ok(QueryParam::Halfedge(c.face_halfedge(id)?)),
        _ => Err(SMeshError::UnsupportedOperation),
    }
}

impl<T> MeshQueryBuilder<T> {
    /// The element the query starts from.
    pub closed spec fn origin(&self) -> QueryParam {
        self.initial
    }

    /// The steps of the query, in order.
    pub closed spec fn trail(&self) -> Seq<QueryOp> {
        self.history@
    }

    pub(crate) fn start(initial: QueryParam) -> (b: Self)
        ensures
            b.origin() == initial,
            b.trail() == Seq::<QueryOp>::empty(),
    {
        MeshQueryBuilder { initial, history: Vec::new(), phantom_data: PhantomData }
    }

    /// The same query for another kind of result.
    pub(crate) fn copy<E>(&self) -> (b: MeshQueryBuilder<E>)
        ensures
            b.origin() == self.origin(),
            b.trail() == self.trail(),
    {
        let mut history: Vec<QueryOp> = Vec::new();
        let mut i: usize = 0;
        while i < self.history.len()
            invariant
                0 <= i <= self.history@.len(),
                history@ == self.history@.take(i as int),
            decreases self.history@.len() - i,
        {
            history.push(self.history[i]);
            proof {
                assert(history@ =~= self.history@.take(i + 1));
            }
            i += 1;
        }
        proof {
            assert(self.history@.take(self.history@.len() as int) =~= self.history@);
        }
        MeshQueryBuilder { initial: self.initial, history, phantom_data: PhantomData }
    }

    /// The query with one more step at its end.
    pub(crate) fn push<E>(&self, op: QueryOp) -> (b: MeshQueryBuilder<E>)
        ensures
            b.origin() == self.origin(),
            b.trail() == self.trail().push(op),
    {
        let mut b: MeshQueryBuilder<E> = self.copy();
        b.history.push(op);
        b
    }

    /// Takes the steps on the given connectivity.
    pub(crate) fn evaluate_operations(&self, c: &Connectivity) -> (r: SMeshResult<QueryParam>)
        ensures
            r == c@.eval_ops(self.origin(), self.trail(), 0),
    {
        let mut value = self.initial;
        let mut i: usize = 0;
        while i < self.history.len()
            invariant
                0 <= i <= self.history@.len(),
                c@.eval_ops(self.initial, self.history@, 0) == c@.eval_ops(
                    value,
                    self.history@,
                    i as int,
                ),
            decreases self.history@.len() - i,
        {
            let op = self.history[i];
            value = match value {
                QueryParam::Vertex(id) => eval_vertex_op(c, id, op)?,
                QueryParam::Halfedge(id) => eval_halfedge_op(c, id, op)?,
                QueryParam::Face(id) => eval_face_op(c, id, op)?,
            };
            i += 1;
        }
        Ok(value)
    }
}

impl<T> Clone for MeshQueryBuilder<T> {
    fn clone(&self) -> (b: Self)
        ensures
            b.origin() == self.origin(),
            b.trail() == self.trail(),
    {
        self.copy()
    }
}

/// What can start a query for identifiers of kind `T`.
pub trait ToMeshQueryBuilder<T> {
    /// The element that the query starts from.
    spec fn start_of(&self) -> QueryParam;

    /// The query that starts here and has no steps yet.
    fn q(&self) -> (b: MeshQueryBuilder<T>)
        ensures
            b.origin() == self.start_of(),
            b.trail() == Seq::<QueryOp>::empty(),
    ;
}

impl ToMeshQueryBuilder<VertexId> for VertexId {
    open spec fn start_of(&self) -> QueryParam {
        QueryParam::Vertex(*self)
    }

    fn q(&self) -> (b: MeshQueryBuilder<VertexId>) {
        MeshQueryBuilder::start(QueryParam::Vertex(*self))
    }
}

impl ToMeshQueryBuilder<HalfedgeId> for HalfedgeId {
    open spec fn start_of(&self) -> QueryParam {
        QueryParam::Halfedge(*self)
    }

    fn q(&self) -> (b: MeshQueryBuilder<HalfedgeId>) {
        MeshQueryBuilder::start(QueryParam::Halfedge(*self))
    }
}

impl ToMeshQueryBuilder<FaceId> for FaceId {
    open spec fn start_of(&self) -> QueryParam {
        QueryParam::Face(*self)
    }

    fn q(&self) -> (b: MeshQueryBuilder<FaceId>) {
        MeshQueryBuilder::start(QueryParam::Face(*self))
    }
}

/// A query that can be run on an `E` and then gives a `T`.
pub trait RunQuery<T, E> {
    /// What the query gives on `on`.
    spec fn outcome(self, on: &E) -> SMeshResult<T>;

    /// Runs the query: takes its steps in order and stops at the first that
    /// fails. A query that ends on another kind of element than `T` gives
    /// `DefaultError`.
    fn run(self, on: &E) -> (r: SMeshResult<T>)
        ensures
            r == self.outcome(on),
    ;
}

impl RunQuery<VertexId, Connectivity> for MeshQueryBuilder<VertexId> {
    open spec fn outcome(self, on: &Connectivity) -> SMeshResult<VertexId> {
        on@.query_vertex(self.origin(), self.trail())
    }

    fn run(self, on: &Connectivity) -> (r: SMeshResult<VertexId>) {
        match self.evaluate_operations(on)? {
            QueryParam::Vertex(id) => Ok(id),
            _ => Err(SMeshError::DefaultError),
        }
    }
}

impl RunQuery<HalfedgeId, Connectivity> for MeshQueryBuilder<HalfedgeId> {
    open spec fn outcome(self, on: &Connectivity) -> SMeshResult<HalfedgeId> {
        on@.query_halfedge(self.origin(), self.trail())
    }

    fn run(self, on: &Connectivity) -> (r: SMeshResult<HalfedgeId>) {
        match self.evaluate_operations(on)? {
            QueryParam::Halfedge(id) => Ok(id),
            _ => Err(SMeshError::DefaultError),
        }
    }
}

impl RunQuery<FaceId, Connectivity> for MeshQueryBuilder<FaceId> {
    open spec fn outcome(self, on: &Connectivity) -> SMeshResult<FaceId> {
        on@.query_face(self.origin(), self.trail())
    }

    fn run(self, on: &Connectivity) -> (r: SMeshResult<FaceId>) {
        match self.evaluate_operations(on)? {
            QueryParam::Face(id) => Ok(id),
            _ => Err(SMeshError::DefaultError),
        }
    }
}

impl RunQuery<VertexId, SMesh> for MeshQueryBuilder<VertexId> {
    open spec fn outcome(self, on: &SMesh) -> SMeshResult<VertexId> {
        on.graph().query_vertex(self.origin(), self.trail())
    }

    fn run(self, on: &SMesh) -> (r: SMeshResult<VertexId>) {
        self.run(&on.connectivity)
    }
}

impl RunQuery<HalfedgeId, SMesh> for MeshQueryBuilder<HalfedgeId> {
    open spec fn outcome(self, on: &SMesh) -> SMeshResult<HalfedgeId> {
        on.graph().query_halfedge(self.origin(), self.trail())
    }

    fn run(self, on: &SMesh) -> (r: SMeshResult<HalfedgeId>) {
        self.run(&on.connectivity)
    }
}

impl RunQuery<FaceId, SMesh> for MeshQueryBuilder<FaceId> {
    open spec fn outcome(self, on: &SMesh) -> SMeshResult<FaceId> {
        on.graph().query_face(self.origin(), self.trail())
    }

    fn run(self, on: &SMesh) -> (r: SMeshResult<FaceId>) {
        self.run(&on.connectivity)
    }
}

} // verus!
