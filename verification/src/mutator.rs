use vstd::prelude::*;
use crate::connectivity::{Connectivity, Room};
use crate::edit::Edit;
use crate::error::SMeshResult;
use crate::graph::Graph;
use crate::mesh::SMesh;
use crate::mesh_elements::{FaceId, HalfedgeId, VertexId};

verus! {

/// A handle on one element of a mesh through which its record is changed.
/// It borrows the connectivity of the mesh for as long as it lives.
pub struct MeshMutator<'a, T> {
    pub conn: &'a mut Connectivity,
    pub value: T,
}

impl<'a, T> MeshMutator<'a, T> {
    /// The connectivity behind the handle.
    pub open spec fn graph(&self) -> Graph {
        self.conn@
    }

    /// How many more records the connectivity behind the handle can take.
    pub open spec fn room(&self) -> Room {
        self.conn.room()
    }

    /// The element that the handle stands for.
    pub open spec fn target(&self) -> T {
        self.value
    }
}

impl<'a> MeshMutator<'a, VertexId> {
    /// Stores the outgoing halfedge of the vertex.
    pub fn set_halfedge(&mut self, id: Option<HalfedgeId>) -> (r: SMeshResult<()>)
        ensures
            Edit::of(old(self).graph()).set_vertex_halfedge(old(self).target(), id) == Edit::after(
                final(self).graph(),
                r,
            ),
            final(self).target() == old(self).target(),
            final(self).room() == old(self).room(),
            *final(final(self).conn) == *final(old(self).conn),
    {
        self.conn.set_vertex_halfedge(self.value, id)
    }

    /// Makes the stored outgoing halfedge a boundary one, if the vertex has
    /// any.
    pub fn adjust_outgoing_halfedge(&mut self) -> (r: SMeshResult<()>)
        ensures
            Edit::of(old(self).graph()).adjust_outgoing_halfedge(old(self).target()) == Edit::after(
                final(self).graph(),
                r,
            ),
            final(self).target() == old(self).target(),
            final(self).room() == old(self).room(),
            *final(final(self).conn) == *final(old(self).conn),
    {
        self.conn.adjust_outgoing_halfedge(self.value)
    }

    /// Removes the record of the vertex. Nothing that refers to it is
    /// touched.
    pub fn delete(&mut self) -> (r: SMeshResult<()>)
        ensures
            r is Ok,
            Edit::of(old(self).graph()).drop_vertex(old(self).target()) == Edit::of(
                final(self).graph(),
            ),
            final(self).target() == old(self).target(),
            final(self).room() == old(self).room(),
            *final(final(self).conn) == *final(old(self).conn),
    {
        self.conn.drop_vertex(self.value);
        Ok(())
    }
}

impl<'a> MeshMutator<'a, HalfedgeId> {
    /// Makes `next` follow the halfedge, and the halfedge precede `next`.
    pub fn set_next(&mut self, next: Option<HalfedgeId>) -> (r: SMeshResult<()>)
        ensures
            Edit::of(old(self).graph()).set_next(old(self).target(), next) == Edit::after(
                final(self).graph(),
                r,
            ),
            final(self).target() == old(self).target(),
            final(self).room() == old(self).room(),
            *final(final(self).conn) == *final(old(self).conn),
    {
        self.conn.set_next(self.value, next)
    }

    /// Makes `prev` precede the halfedge, and the halfedge follow `prev`.
    pub fn set_prev(&mut self, prev: Option<HalfedgeId>) -> (r: SMeshResult<()>)
        ensures
            Edit::of(old(self).graph()).set_prev(old(self).target(), prev) == Edit::after(
                final(self).graph(),
                r,
            ),
            final(self).target() == old(self).target(),
            final(self).room() == old(self).room(),
            *final(final(self).conn) == *final(old(self).conn),
    {
        self.conn.set_prev(self.value, prev)
    }

    /// Makes the halfedge and `opposite` each other's opposite.
    pub fn set_opposite(&mut self, opposite: HalfedgeId) -> (r: SMeshResult<()>)
        ensures
            Edit::of(old(self).graph()).set_opposite(old(self).target(), opposite) == Edit::after(
                final(self).graph(),
                r,
            ),
            final(self).target() == old(self).target(),
            final(self).room() == old(self).room(),
            *final(final(self).conn) == *final(old(self).conn),
    {
        self.conn.set_opposite(self.value, opposite)
    }

    /// Stores the vertex that the halfedge points to.
    pub fn set_vertex(&mut self, vertex: VertexId) -> (r: SMeshResult<()>)
        ensures
            Edit::of(old(self).graph()).set_vertex(old(self).target(), vertex) == Edit::after(
                final(self).graph(),
                r,
            ),
            final(self).target() == old(self).target(),
            final(self).room() == old(self).room(),
            *final(final(self).conn) == *final(old(self).conn),
    {
        self.conn.set_vertex(self.value, vertex)
    }

    /// Stores the face of the halfedge.
    pub fn set_face(&mut self, face: Option<FaceId>) -> (r: SMeshResult<()>)
        ensures
            Edit::of(old(self).graph()).set_face(old(self).target(), face) == Edit::after(
                final(self).graph(),
                r,
            ),
            final(self).target() == old(self).target(),
            final(self).room() == old(self).room(),
            *final(final(self).conn) == *final(old(self).conn),
    {
        self.conn.set_face(self.value, face)
    }

    /// Removes the halfedge and the halfedge it names as its opposite.
    pub fn delete(&mut self) -> (r: SMeshResult<()>)
        ensures
            r is Ok,
            Edit::of(old(self).graph()).drop_edge(old(self).target()) == Edit::of(
                final(self).graph(),
            ),
            final(self).target() == old(self).target(),
            final(self).room() == old(self).room(),
            *final(final(self).conn) == *final(old(self).conn),
    {
        self.conn.drop_edge(self.value);
        Ok(())
    }
}

impl<'a> MeshMutator<'a, FaceId> {
    /// Stores the halfedge of the face.
    pub fn set_halfedge(&mut self, id: Option<HalfedgeId>) -> (r: SMeshResult<()>)
        ensures
            Edit::of(old(self).graph()).set_face_halfedge(old(self).target(), id) == Edit::after(
                final(self).graph(),
                r,
            ),
            final(self).target() == old(self).target(),
            final(self).room() == old(self).room(),
            *final(final(self).conn) == *final(old(self).conn),
    {
        self.conn.set_face_halfedge(self.value, id)
    }

    /// Removes the record of the face. Nothing that refers to it is touched.
    pub fn delete(&mut self) -> (r: SMeshResult<()>)
        ensures
            r is Ok,
            Edit::of(old(self).graph()).drop_face(old(self).target()) == Edit::of(
                final(self).graph(),
            ),
            final(self).target() == old(self).target(),
            final(self).room() == old(self).room(),
            *final(final(self).conn) == *final(old(self).conn),
    {
        self.conn.drop_face(self.value);
        Ok(())
    }
}

impl SMesh {
    /// A handle on the element `id` through which its record is changed.
    /// What is done through the handle is done to the connectivity of the
    /// mesh; the attributes stay as they are.
    pub fn get_mut<T>(&mut self, id: T) -> (m: MeshMutator<'_, T>)
        ensures
            m.graph() == old(self).graph(),
            m.room() == old(self).room(),
            m.target() == id,
            final(self).graph() == final(m.conn)@,
            final(self).room() == final(m.conn).room(),
            final(self).attributes() == old(self).attributes(),
    {
        MeshMutator { conn: &mut self.connectivity, value: id }
    }
}

} // verus!
