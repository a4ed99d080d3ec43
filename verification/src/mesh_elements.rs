use vstd::prelude::*;

verus! {

/// The lowest bit of the generation half of a raw identifier. An arena only
/// ever hands out or looks up identifiers in which it is set.
pub const LIVE_BIT: u64 = 0x1_0000_0000;

/// The raw value of the null identifier, which no arena ever hands out.
pub const NULL_RAW: u64 = 0x1_FFFF_FFFF;

/// The raw identifier that an arena looks up when it is handed `raw`: the
/// same slot index, the generation made odd.
pub open spec fn key_of(raw: u64) -> u64 {
    raw | LIVE_BIT
}

/// The slot index of a raw identifier.
pub open spec fn slot_of(raw: u64) -> u64 {
    raw & 0xFFFF_FFFF
}

/// Identifier of a vertex: a slot index in the low 32 bits and the slot's
/// generation in the high 32 bits. Identifiers of different kinds are
/// different types, so one cannot stand where another is expected.
#[derive(Clone, Copy, Debug, PartialEq, Eq, Hash, Structural)]
pub struct VertexId {
    pub(crate) raw: u64,
}

impl View for VertexId {
    type V = u64;

    closed spec fn view(&self) -> u64 {
        self.raw
    }
}

impl VertexId {
    #[verifier::type_invariant]
    pub closed spec fn is_key(self) -> bool {
        key_of(self.raw) == self.raw
    }

    /// The identifier with the given raw value, its generation made odd.
    pub fn from_ffi(raw: u64) -> (id: Self)
        ensures
            id@ == key_of(raw),
    {
        assert((raw | 0x1_0000_0000u64) | 0x1_0000_0000u64 == raw | 0x1_0000_0000u64)
            by (bit_vector);
        VertexId { raw: raw | LIVE_BIT }
    }

    /// The raw value of the identifier.
    pub fn as_ffi(self) -> (raw: u64)
        ensures
            raw == self@,
            key_of(raw) == raw,
    {
        proof {
            use_type_invariant(&self);
        }
        self.raw
    }

    /// The null identifier.
    pub fn null() -> (id: Self)
        ensures
            id@ == NULL_RAW,
    {
        assert(0x1_FFFF_FFFFu64 | 0x1_0000_0000u64 == 0x1_FFFF_FFFFu64) by (bit_vector);
        VertexId { raw: NULL_RAW }
    }

    /// Whether this is the null identifier.
    pub fn is_null(self) -> (r: bool)
        ensures
            r == (self@ == NULL_RAW),
    {
        self.raw == NULL_RAW
    }

    /// Two identifiers with the same raw value are the same identifier.
    pub proof fn lemma_view_injective(a: Self, b: Self)
        ensures
            a@ == b@ <==> a == b,
    {
    }
}

impl Default for VertexId {
    fn default() -> (id: Self)
        ensures
            id@ == NULL_RAW,
    {
        VertexId::null()
    }
}

/// Identifier of a halfedge: a slot index in the low 32 bits and the slot's
/// generation in the high 32 bits. Identifiers of different kinds are
/// different types, so one cannot stand where another is expected.
#[derive(Clone, Copy, Debug, PartialEq, Eq, Hash, Structural)]
pub struct HalfedgeId {
    pub(crate) raw: u64,
}

impl View for HalfedgeId {
    type V = u64;

    closed spec fn view(&self) -> u64 {
        self.raw
    }
}

impl HalfedgeId {
    #[verifier::type_invariant]
    pub closed spec fn is_key(self) -> bool {
        key_of(self.raw) == self.raw
    }

    /// The identifier with the given raw value, its generation made odd.
    pub fn from_ffi(raw: u64) -> (id: Self)
        ensures
            id@ == key_of(raw),
    {
        assert((raw | 0x1_0000_0000u64) | 0x1_0000_0000u64 == raw | 0x1_0000_0000u64)
            by (bit_vector);
        HalfedgeId { raw: raw | LIVE_BIT }
    }

    /// The raw value of the identifier.
    pub fn as_ffi(self) -> (raw: u64)
        ensures
            raw == self@,
            key_of(raw) == raw,
    {
        proof {
            use_type_invariant(&self);
        }
        self.raw
    }

    /// The null identifier.
    pub fn null() -> (id: Self)
        ensures
            id@ == NULL_RAW,
    {
        assert(0x1_FFFF_FFFFu64 | 0x1_0000_0000u64 == 0x1_FFFF_FFFFu64) by (bit_vector);
        HalfedgeId { raw: NULL_RAW }
    }

    /// Whether this is the null identifier.
    pub fn is_null(self) -> (r: bool)
        ensures
            r == (self@ == NULL_RAW),
    {
        self.raw == NULL_RAW
    }

    /// Two identifiers with the same raw value are the same identifier.
    pub proof fn lemma_view_injective(a: Self, b: Self)
        ensures
            a@ == b@ <==> a == b,
    {
    }
}

impl Default for HalfedgeId {
    fn default() -> (id: Self)
        ensures
            id@ == NULL_RAW,
    {
        HalfedgeId::null()
    }
}

/// Identifier of a face: a slot index in the low 32 bits and the slot's
/// generation in the high 32 bits. Identifiers of different kinds are
/// different types, so one cannot stand where another is expected.
#[derive(Clone, Copy, Debug, PartialEq, Eq, Hash, Structural)]
pub struct FaceId {
    pub(crate) raw: u64,
}

impl View for FaceId {
    type V = u64;

    closed spec fn view(&self) -> u64 {
        self.raw
    }
}

impl FaceId {
    #[verifier::type_invariant]
    pub closed spec fn is_key(self) -> bool {
        key_of(self.raw) == self.raw
    }

    /// The identifier with the given raw value, its generation made odd.
    pub fn from_ffi(raw: u64) -> (id: Self)
        ensures
            id@ == key_of(raw),
    {
        assert((raw | 0x1_0000_0000u64) | 0x1_0000_0000u64 == raw | 0x1_0000_0000u64)
            by (bit_vector);
        FaceId { raw: raw | LIVE_BIT }
    }

    /// The raw value of the identifier.
    pub fn as_ffi(self) -> (raw: u64)
        ensures
            raw == self@,
            key_of(raw) == raw,
    {
        proof {
            use_type_invariant(&self);
        }
        self.raw
    }

    /// The null identifier.
    pub fn null() -> (id: Self)
        ensures
            id@ == NULL_RAW,
    {
        assert(0x1_FFFF_FFFFu64 | 0x1_0000_0000u64 == 0x1_FFFF_FFFFu64) by (bit_vector);
        FaceId { raw: NULL_RAW }
    }

    /// Whether this is the null identifier.
    pub fn is_null(self) -> (r: bool)
        ensures
            r == (self@ == NULL_RAW),
    {
        self.raw == NULL_RAW
    }

    /// Two identifiers with the same raw value are the same identifier.
    pub proof fn lemma_view_injective(a: Self, b: Self)
        ensures
            a@ == b@ <==> a == b,
    {
    }
}

impl Default for FaceId {
    fn default() -> (id: Self)
        ensures
            id@ == NULL_RAW,
    {
        FaceId::null()
    }
}

/// A vertex: one of the halfedges that leave it, or none while it is
/// isolated.
#[derive(Debug, Clone, Copy)]
pub struct Vertex {
    pub halfedge: Option<HalfedgeId>,
}

impl Default for Vertex {
    fn default() -> (v: Self)
        ensures
            v == (Vertex { halfedge: None }),
    {
        Vertex { halfedge: None }
    }
}

/// One directed side of an edge.
#[derive(Debug, Clone, Copy)]
pub struct Halfedge {
    /// The vertex the halfedge points to.
    pub vertex: VertexId,
    /// The face to its left; none on a boundary.
    pub face: Option<FaceId>,
    /// The halfedge of the same edge that runs the other way.
    pub opposite: Option<HalfedgeId>,
    pub prev: Option<HalfedgeId>,
    pub next: Option<HalfedgeId>,
}

impl Default for Halfedge {
    fn default() -> (h: Self)
        ensures
            h.vertex@ == NULL_RAW,
            h.face.is_none(),
            h.opposite.is_none(),
            h.prev.is_none(),
            h.next.is_none(),
    {
        Halfedge { vertex: VertexId::null(), face: None, opposite: None, prev: None, next: None }
    }
}

/// An undirected edge, named by one of its two halfedges.
#[derive(Debug, Clone, Copy)]
pub struct Edge {
    pub halfedge: Option<HalfedgeId>,
}

impl Default for Edge {
    fn default() -> (e: Self)
        ensures
            e == (Edge { halfedge: None }),
    {
        Edge { halfedge: None }
    }
}

/// A face: one of the halfedges of its loop.
#[derive(Debug, Clone, Copy)]
pub struct Face {
    pub halfedge: Option<HalfedgeId>,
}

impl Default for Face {
    fn default() -> (f: Self)
        ensures
            f == (Face { halfedge: None }),
    {
        Face { halfedge: None }
    }
}

} // verus!
