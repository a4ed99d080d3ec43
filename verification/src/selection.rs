use vstd::prelude::*;
use crate::error::{SMeshError, SMeshResult};
use crate::graph::Graph;
use crate::mesh::SMesh;
use crate::mesh_elements::{FaceId, HalfedgeId, VertexId};

verus! {

/// `s` with `x` at its end, unless `x` is in it already.
pub open spec fn seq_add<T>(s: Seq<T>, x: T) -> Seq<T> {
    if s.contains(x) {
        s
    } else {
        s.push(x)
    }
}

/// `s` with each of `xs` from the `i`-th on added in turn.
pub open spec fn seq_add_all<T>(s: Seq<T>, xs: Seq<T>, i: int) -> Seq<T>
    decreases xs.len() - i,
{
    if i < 0 || i >= xs.len() {
        s
    } else {
        seq_add_all(seq_add(s, xs[i]), xs, i + 1)
    }
}

/// Every one of `xs` is in `own`.
pub open spec fn all_in<T>(own: Seq<T>, xs: Seq<T>) -> bool {
    forall|k: int| 0 <= k < xs.len() ==> own.contains(#[trigger] xs[k])
}

/// Adding to a sequence without repetitions leaves it without repetitions.
pub proof fn lemma_seq_add_no_duplicates<T>(s: Seq<T>, x: T)
    requires
        s.no_duplicates(),
    ensures
        seq_add(s, x).no_duplicates(),
        seq_add(s, x).contains(x),
        forall|y: T| s.contains(y) ==> seq_add(s, x).contains(y),
{
    if !s.contains(x) {
        let t = s.push(x);
        assert forall|i: int, j: int| 0 <= i < t.len() && 0 <= j < t.len() && i != j implies t[i]
            != t[j] by {
            if i < s.len() {
                assert(s.contains(s[i]));
            }
            if j < s.len() {
                assert(s.contains(s[j]));
            }
        }
        assert(t[s.len() as int] == x);
        assert forall|y: T| s.contains(y) implies t.contains(y) by {
            let k = choose|k: int| 0 <= k < s.len() && s[k] == y;
            assert(t[k] == y);
        }
    }
}

/// Adding several elements to a sequence without repetitions leaves it
/// without repetitions.
pub proof fn lemma_seq_add_all_no_duplicates<T>(s: Seq<T>, xs: Seq<T>, i: int)
    requires
        s.no_duplicates(),
    ensures
        seq_add_all(s, xs, i).no_duplicates(),
    decreases xs.len() - i,
{
    if 0 <= i < xs.len() {
        lemma_seq_add_no_duplicates(s, xs[i]);
        lemma_seq_add_all_no_duplicates(seq_add(s, xs[i]), xs, i + 1);
    }
}

/// A selection as a mathematical value: the selected identifiers of each
/// kind, in the order in which they were selected.
pub struct Picks {
    pub vertices: Seq<VertexId>,
    pub halfedges: Seq<HalfedgeId>,
    pub faces: Seq<FaceId>,
}

impl Graph {
    /// `acc` with both ends of each halfedge from the `i`-th on.
    pub open spec fn add_edge_ends(self, acc: Seq<VertexId>, hs: Seq<HalfedgeId>, i: int) -> SMeshResult<
        Seq<VertexId>,
    >
        decreases hs.len() - i,
    {
        if i < 0 || i >= hs.len() {
            Ok(acc)
        } else {
            match self.src_vertex(hs[i]) {
                Err(e) => Err(e),
                Ok(src) => match self.he_vertex(hs[i]) {
                    Err(e) => Err(e),
                    Ok(dst) => self.add_edge_ends(seq_add(seq_add(acc, src), dst), hs, i + 1),
                },
            }
        }
    }

    /// `acc` with the corners of each face from the `i`-th on.
    pub open spec fn add_face_corners(self, acc: Seq<VertexId>, fs: Seq<FaceId>, i: int) -> Seq<
        VertexId,
    >
        decreases fs.len() - i,
    {
        if i < 0 || i >= fs.len() {
            acc
        } else {
            self.add_face_corners(seq_add_all(acc, self.face_vertices(fs[i]), 0), fs, i + 1)
        }
    }

    /// The vertices that a selection touches: the selected ones, the ends of
    /// the selected halfedges and the corners of the selected faces.
    pub open spec fn resolve_to_vertices(self, picks: Picks) -> SMeshResult<Seq<VertexId>> {
        match self.add_edge_ends(picks.vertices, picks.halfedges, 0) {
            Err(e) => Err(e),
            Ok(acc) => Ok(self.add_face_corners(acc, picks.faces, 0)),
        }
    }

    /// `acc` with the face of each halfedge from the `i`-th on.
    pub open spec fn add_edge_faces(self, acc: Seq<FaceId>, hs: Seq<HalfedgeId>, i: int) -> SMeshResult<
        Seq<FaceId>,
    >
        decreases hs.len() - i,
    {
        if i < 0 || i >= hs.len() {
            Ok(acc)
        } else {
            match self.he_face(hs[i]) {
                Err(e) => Err(e),
                Ok(f) => self.add_edge_faces(seq_add(acc, f), hs, i + 1),
            }
        }
    }

    /// `acc` with each face from the `j`-th on whose corners are all in
    /// `own`.
    pub open spec fn add_enclosed(self, acc: Seq<FaceId>, own: Seq<VertexId>, fs: Seq<FaceId>, j: int) -> Seq<
        FaceId,
    >
        decreases fs.len() - j,
    {
        if j < 0 || j >= fs.len() {
            acc
        } else {
            self.add_enclosed(
                if all_in(own, self.face_vertices(fs[j])) {
                    seq_add(acc, fs[j])
                } else {
                    acc
                },
                own,
                fs,
                j + 1,
            )
        }
    }

    /// `acc` with the faces around each vertex from the `i`-th on whose
    /// corners are all in `own`.
    pub open spec fn add_enclosed_faces(
        self,
        acc: Seq<FaceId>,
        own: Seq<VertexId>,
        vs: Seq<VertexId>,
        i: int,
    ) -> Seq<FaceId>
        decreases vs.len() - i,
    {
        if i < 0 || i >= vs.len() {
            acc
        } else {
            self.add_enclosed_faces(
                self.add_enclosed(acc, own, self.vertex_faces(vs[i]), 0),
                own,
                vs,
                i + 1,
            )
        }
    }

    /// The faces that a selection stands for: the selected ones, the faces
    /// of the selected halfedges, and the faces whose corners are all
    /// selected.
    pub open spec fn resolve_to_faces(self, picks: Picks) -> SMeshResult<Seq<FaceId>> {
        match self.add_edge_faces(picks.faces, picks.halfedges, 0) {
            Err(e) => Err(e),
            Ok(acc) => Ok(self.add_enclosed_faces(acc, picks.vertices, picks.vertices, 0)),
        }
    }

    /// `acc` with the loop of each face from the `i`-th on.
    pub open spec fn add_face_loops(self, acc: Seq<HalfedgeId>, fs: Seq<FaceId>, i: int) -> Seq<
        HalfedgeId,
    >
        decreases fs.len() - i,
    {
        if i < 0 || i >= fs.len() {
            acc
        } else {
            self.add_face_loops(seq_add_all(acc, self.face_halfedges(fs[i]), 0), fs, i + 1)
        }
    }

    /// `acc` with each halfedge from the `j`-th on that points to a vertex
    /// in `own`.
    pub open spec fn add_pointing(
        self,
        acc: Seq<HalfedgeId>,
        own: Seq<VertexId>,
        hs: Seq<HalfedgeId>,
        j: int,
    ) -> SMeshResult<Seq<HalfedgeId>>
        decreases hs.len() - j,
    {
        if j < 0 || j >= hs.len() {
            Ok(acc)
        } else {
            match self.he_vertex(hs[j]) {
                Err(e) => Err(e),
                Ok(dst) => self.add_pointing(
                    if own.contains(dst) {
                        seq_add(acc, hs[j])
                    } else {
                        acc
                    },
                    own,
                    hs,
                    j + 1,
                ),
            }
        }
    }

    /// `acc` with the halfedges that lead from each vertex from the `i`-th
    /// on to a vertex in `own`.
    pub open spec fn add_inner_edges(
        self,
        acc: Seq<HalfedgeId>,
        own: Seq<VertexId>,
        vs: Seq<VertexId>,
        i: int,
    ) -> SMeshResult<Seq<HalfedgeId>>
        decreases vs.len() - i,
    {
        if i < 0 || i >= vs.len() {
            Ok(acc)
        } else {
            match self.add_pointing(acc, own, self.vertex_halfedges(vs[i]), 0) {
                Err(e) => Err(e),
                Ok(more) => self.add_inner_edges(more, own, vs, i + 1),
            }
        }
    }

    /// The halfedges that a selection stands for: the selected ones, the
    /// loops of the selected faces, and the halfedges between two selected
    /// vertices.
    pub open spec fn resolve_to_halfedges(self, picks: Picks) -> SMeshResult<Seq<HalfedgeId>> {
        self.add_inner_edges(
            self.add_face_loops(picks.halfedges, picks.faces, 0),
            picks.vertices,
            picks.vertices,
            0,
        )
    }
}

/// Whether `x` is among `xs`.
pub fn has_vertex(xs: &Vec<VertexId>, x: VertexId) -> (r: bool)
    ensures
        r == xs@.contains(x),
{
    let mut i: usize = 0;
    while i < xs.len()
        invariant
            0 <= i <= xs@.len(),
            forall|k: int| 0 <= k < i ==> xs@[k] != x,
        decreases xs@.len() - i,
    {
        if xs[i] == x {
            return true;
        }
        i += 1;
    }
    false
}

/// Whether `x` is among `xs`.
pub fn has_halfedge(xs: &Vec<HalfedgeId>, x: HalfedgeId) -> (r: bool)
    ensures
        r == xs@.contains(x),
{
    let mut i: usize = 0;
    while i < xs.len()
        invariant
            0 <= i <= xs@.len(),
            forall|k: int| 0 <= k < i ==> xs@[k] != x,
        decreases xs@.len() - i,
    {
        if xs[i] == x {
            return true;
        }
        i += 1;
    }
    false
}

/// Whether `x` is among `xs`.
pub fn has_face(xs: &Vec<FaceId>, x: FaceId) -> (r: bool)
    ensures
        r == xs@.contains(x),
{
    let mut i: usize = 0;
    while i < xs.len()
        invariant
            0 <= i <= xs@.len(),
            forall|k: int| 0 <= k < i ==> xs@[k] != x,
        decreases xs@.len() - i,
    {
        if xs[i] == x {
            return true;
        }
        i += 1;
    }
    false
}

fn add_vertex_to(acc: &mut Vec<VertexId>, x: VertexId)
    ensures
        final(acc)@ == seq_add(old(acc)@, x),
        old(acc)@.no_duplicates() ==> final(acc)@.no_duplicates(),
{
    proof {
        if acc@.no_duplicates() {
            lemma_seq_add_no_duplicates(acc@, x);
        }
    }
    if !has_vertex(acc, x) {
        acc.push(x);
    }
}

fn add_halfedge_to(acc: &mut Vec<HalfedgeId>, x: HalfedgeId)
    ensures
        final(acc)@ == seq_add(old(acc)@, x),
        old(acc)@.no_duplicates() ==> final(acc)@.no_duplicates(),
{
    proof {
        if acc@.no_duplicates() {
            lemma_seq_add_no_duplicates(acc@, x);
        }
    }
    if !has_halfedge(acc, x) {
        acc.push(x);
    }
}

fn add_face_to(acc: &mut Vec<FaceId>, x: FaceId)
    ensures
        final(acc)@ == seq_add(old(acc)@, x),
        old(acc)@.no_duplicates() ==> final(acc)@.no_duplicates(),
{
    proof {
        if acc@.no_duplicates() {
            lemma_seq_add_no_duplicates(acc@, x);
        }
    }
    if !has_face(acc, x) {
        acc.push(x);
    }
}

fn add_vertices_to(acc: &mut Vec<VertexId>, xs: &Vec<VertexId>)
    ensures
        final(acc)@ == seq_add_all(old(acc)@, xs@, 0),
        old(acc)@.no_duplicates() ==> final(acc)@.no_duplicates(),
{
    let mut i: usize = 0;
    while i < xs.len()
        invariant
            0 <= i <= xs@.len(),
            old(acc)@.no_duplicates() ==> acc@.no_duplicates(),
            seq_add_all(old(acc)@, xs@, 0) == seq_add_all(acc@, xs@, i as int),
        decreases xs@.len() - i,
    {
        add_vertex_to(acc, xs[i]);
        i += 1;
    }
}

fn add_halfedges_to(acc: &mut Vec<HalfedgeId>, xs: &Vec<HalfedgeId>)
    ensures
        final(acc)@ == seq_add_all(old(acc)@, xs@, 0),
        old(acc)@.no_duplicates() ==> final(acc)@.no_duplicates(),
{
    let mut i: usize = 0;
    while i < xs.len()
        invariant
            0 <= i <= xs@.len(),
            old(acc)@.no_duplicates() ==> acc@.no_duplicates(),
            seq_add_all(old(acc)@, xs@, 0) == seq_add_all(acc@, xs@, i as int),
        decreases xs@.len() - i,
    {
        add_halfedge_to(acc, xs[i]);
        i += 1;
    }
}

fn all_vertices_in(own: &Vec<VertexId>, xs: &Vec<VertexId>) -> (r: bool)
    ensures
        r == all_in(own@, xs@),
{
    let mut i: usize = 0;
    while i < xs.len()
        invariant
            0 <= i <= xs@.len(),
            forall|k: int| 0 <= k < i ==> own@.contains(#[trigger] xs@[k]),
        decreases xs@.len() - i,
    {
        if !has_vertex(own, xs[i]) {
            return false;
        }
        i += 1;
    }
    true
}

fn copy_vertices(xs: &Vec<VertexId>) -> (r: Vec<VertexId>)
    ensures
        r@ == xs@,
{
    let mut r: Vec<VertexId> = Vec::new();
    let mut i: usize = 0;
    while i < xs.len()
        invariant
            0 <= i <= xs@.len(),
            r@ == xs@.take(i as int),
        decreases xs@.len() - i,
    {
        r.push(xs[i]);
        proof {
            assert(r@ =~= xs@.take(i + 1));
        }
        i += 1;
    }
    proof {
        assert(xs@.take(xs@.len() as int) =~= xs@);
    }
    r
}

fn copy_halfedges(xs: &Vec<HalfedgeId>) -> (r: Vec<HalfedgeId>)
    ensures
        r@ == xs@,
{
    let mut r: Vec<HalfedgeId> = Vec::new();
    let mut i: usize = 0;
    while i < xs.len()
        invariant
            0 <= i <= xs@.len(),
            r@ == xs@.take(i as int),
        decreases xs@.len() - i,
    {
        r.push(xs[i]);
        proof {
            assert(r@ =~= xs@.take(i + 1));
        }
        i += 1;
    }
    proof {
        assert(xs@.take(xs@.len() as int) =~= xs@);
    }
    r
}

fn copy_faces(xs: &Vec<FaceId>) -> (r: Vec<FaceId>)
    ensures
        r@ == xs@,
{
    let mut r: Vec<FaceId> = Vec::new();
    let mut i: usize = 0;
    while i < xs.len()
        invariant
            0 <= i <= xs@.len(),
            r@ == xs@.take(i as int),
        decreases xs@.len() - i,
    {
        r.push(xs[i]);
        proof {
            assert(r@ =~= xs@.take(i + 1));
        }
        i += 1;
    }
    proof {
        assert(xs@.take(xs@.len() as int) =~= xs@);
    }
    r
}

/// A set of vertices, halfedges and faces that can be merged and resolved
/// into one kind. Each kind keeps the order in which its elements came, and
/// holds none twice.
pub struct MeshSelection {
    vertices: Vec<VertexId>,
    halfedges: Vec<HalfedgeId>,
    faces: Vec<FaceId>,
}

impl View for MeshSelection {
    type V = Picks;

    closed spec fn view(&self) -> Picks {
        Picks { vertices: self.vertices@, halfedges: self.halfedges@, faces: self.faces@ }
    }
}

/// What a selection can take in.
pub trait MeshSelectionOps<T> {
    /// The selection with `item` in it.
    spec fn with_item(picks: Picks, item: T) -> Picks;

    /// Adds `item`, unless it is selected already.
    fn insert(&mut self, item: T)
        ensures
            final(self).picks() == Self::with_item(old(self).picks(), item),
    ;

    /// The selection as a value.
    spec fn picks(&self) -> Picks;
}

impl MeshSelection {
    /// No identifier is selected twice.
    pub open spec fn wf(&self) -> bool {
        &&& self@.vertices.no_duplicates()
        &&& self@.halfedges.no_duplicates()
        &&& self@.faces.no_duplicates()
    }

    /// The empty selection.
    pub fn new() -> (s: Self)
        ensures
            s@ == (Picks { vertices: Seq::empty(), halfedges: Seq::empty(), faces: Seq::empty() }),
            s.wf(),
    {
        MeshSelection { vertices: Vec::new(), halfedges: Vec::new(), faces: Vec::new() }
    }

    /// The selected vertices.
    pub fn vertices(&self) -> (r: Vec<VertexId>)
        ensures
            r@ == self@.vertices,
    {
        copy_vertices(&self.vertices)
    }

    /// The selected halfedges.
    pub fn halfedges(&self) -> (r: Vec<HalfedgeId>)
        ensures
            r@ == self@.halfedges,
    {
        copy_halfedges(&self.halfedges)
    }

    /// The selected faces.
    pub fn faces(&self) -> (r: Vec<FaceId>)
        ensures
            r@ == self@.faces,
    {
        copy_faces(&self.faces)
    }

    /// The selection of the given vertices.
    pub fn from_vertices(items: Vec<VertexId>) -> (s: Self)
        ensures
            s@ == (Picks {
                vertices: seq_add_all(Seq::empty(), items@, 0),
                halfedges: Seq::empty(),
                faces: Seq::empty(),
            }),
            s.wf(),
    {
        let mut s = MeshSelection::new();
        add_vertices_to(&mut s.vertices, &items);
        proof {
            lemma_seq_add_all_no_duplicates(Seq::<VertexId>::empty(), items@, 0);
        }
        s
    }

    /// The selection of the given halfedges.
    pub fn from_halfedges(items: Vec<HalfedgeId>) -> (s: Self)
        ensures
            s@ == (Picks {
                vertices: Seq::empty(),
                halfedges: seq_add_all(Seq::empty(), items@, 0),
                faces: Seq::empty(),
            }),
            s.wf(),
    {
        let mut s = MeshSelection::new();
        add_halfedges_to(&mut s.halfedges, &items);
        proof {
            lemma_seq_add_all_no_duplicates(Seq::<HalfedgeId>::empty(), items@, 0);
        }
        s
    }

    /// The selection of the given faces.
    pub fn from_faces(items: Vec<FaceId>) -> (s: Self)
        ensures
            s@ == (Picks {
                vertices: Seq::empty(),
                halfedges: Seq::empty(),
                faces: seq_add_all(Seq::empty(), items@, 0),
            }),
            s.wf(),
    {
        let mut s = MeshSelection::new();
        let mut i: usize = 0;
        while i < items.len()
            invariant
                0 <= i <= items@.len(),
                s.vertices@ == Seq::<VertexId>::empty(),
                s.halfedges@ == Seq::<HalfedgeId>::empty(),
                seq_add_all(Seq::empty(), items@, 0) == seq_add_all(s.faces@, items@, i as int),
            decreases items@.len() - i,
        {
            add_face_to(&mut s.faces, items[i]);
            i += 1;
        }
        proof {
            lemma_seq_add_all_no_duplicates(Seq::<FaceId>::empty(), items@, 0);
        }
        s
    }

    /// The vertices that the selection touches.
    pub fn resolve_to_vertices(&self, smesh: &SMesh) -> (r: SMeshResult<Vec<VertexId>>)
        ensures
            match r {
                Ok(vs) => smesh.graph().resolve_to_vertices(self@) == Ok::<Seq<VertexId>, SMeshError>(
                    vs@,
                ),
                Err(e) => smesh.graph().resolve_to_vertices(self@) == Err::<
                    Seq<VertexId>,
                    SMeshError,
                >(e),
            },
            self.wf() && r is Ok ==> r->Ok_0@.no_duplicates(),
    {
        let c = &smesh.connectivity;
        let mut acc = copy_vertices(&self.vertices);
        let mut i: usize = 0;
        while i < self.halfedges.len()
            invariant
                0 <= i <= self.halfedges@.len(),
                c@.add_edge_ends(self.vertices@, self.halfedges@, 0) == c@.add_edge_ends(
                    acc@,
                    self.halfedges@,
                    i as int,
                ),
                c@ == smesh.graph(),
                self.wf() ==> acc@.no_duplicates(),
            decreases self.halfedges@.len() - i,
        {
            let src = c.src_vertex(self.halfedges[i])?;
            let dst = c.he_vertex(self.halfedges[i])?;
            add_vertex_to(&mut acc, src);
            add_vertex_to(&mut acc, dst);
            i += 1;
        }
        let ghost mid = acc@;
        let mut i: usize = 0;
        while i < self.faces.len()
            invariant
                0 <= i <= self.faces@.len(),
                c@.add_face_corners(mid, self.faces@, 0) == c@.add_face_corners(
                    acc@,
                    self.faces@,
                    i as int,
                ),
                self.wf() ==> acc@.no_duplicates(),
            decreases self.faces@.len() - i,
        {
            let corners = c.face_vertices(self.faces[i]);
            add_vertices_to(&mut acc, &corners);
            i += 1;
        }
        Ok(acc)
    }

    /// The faces that the selection stands for.
    pub fn resolve_to_faces(&self, smesh: &SMesh) -> (r: SMeshResult<Vec<FaceId>>)
        ensures
            match r {
                Ok(fs) => smesh.graph().resolve_to_faces(self@) == Ok::<Seq<FaceId>, SMeshError>(fs@),
                Err(e) => smesh.graph().resolve_to_faces(self@) == Err::<Seq<FaceId>, SMeshError>(e),
            },
            self.wf() && r is Ok ==> r->Ok_0@.no_duplicates(),
    {
        let c = &smesh.connectivity;
        let mut acc = copy_faces(&self.faces);
        let mut i: usize = 0;
        while i < self.halfedges.len()
            invariant
                0 <= i <= self.halfedges@.len(),
                c@.add_edge_faces(self.faces@, self.halfedges@, 0) == c@.add_edge_faces(
                    acc@,
                    self.halfedges@,
                    i as int,
                ),
                c@ == smesh.graph(),
                self.wf() ==> acc@.no_duplicates(),
            decreases self.halfedges@.len() - i,
        {
            let f = c.he_face(self.halfedges[i])?;
            add_face_to(&mut acc, f);
            i += 1;
        }
        let ghost mid = acc@;
        let mut i: usize = 0;
        while i < self.vertices.len()
            invariant
                0 <= i <= self.vertices@.len(),
                c@.add_enclosed_faces(mid, self.vertices@, self.vertices@, 0)
                    == c@.add_enclosed_faces(acc@, self.vertices@, self.vertices@, i as int),
                self.wf() ==> acc@.no_duplicates(),
            decreases self.vertices@.len() - i,
        {
            let around = c.vertex_faces(self.vertices[i]);
            let ghost before = acc@;
            let mut j: usize = 0;
            while j < around.len()
                invariant
                    0 <= j <= around@.len(),
                    c@.add_enclosed(before, self.vertices@, around@, 0) == c@.add_enclosed(
                        acc@,
                        self.vertices@,
                        around@,
                        j as int,
                    ),
                    self.wf() ==> acc@.no_duplicates(),
                decreases around@.len() - j,
            {
                let corners = c.face_vertices(around[j]);
                if all_vertices_in(&self.vertices, &corners) {
                    add_face_to(&mut acc, around[j]);
                }
                j += 1;
            }
            i += 1;
        }
        Ok(acc)
    }

    /// The halfedges that the selection stands for.
    pub fn resolve_to_halfedges(&self, smesh: &SMesh) -> (r: SMeshResult<Vec<HalfedgeId>>)
        ensures
            match r {
                Ok(hs) => smesh.graph().resolve_to_halfedges(self@) == Ok::<
                    Seq<HalfedgeId>,
                    SMeshError,
                >(hs@),
                Err(e) => smesh.graph().resolve_to_halfedges(self@) == Err::<
                    Seq<HalfedgeId>,
                    SMeshError,
                >(e),
            },
            self.wf() && r is Ok ==> r->Ok_0@.no_duplicates(),
    {
        let c = &smesh.connectivity;
        let mut acc = copy_halfedges(&self.halfedges);
        let mut i: usize = 0;
        while i < self.faces.len()
            invariant
                0 <= i <= self.faces@.len(),
                c@.add_face_loops(self.halfedges@, self.faces@, 0) == c@.add_face_loops(
                    acc@,
                    self.faces@,
                    i as int,
                ),
                self.wf() ==> acc@.no_duplicates(),
            decreases self.faces@.len() - i,
        {
            let ring = c.face_halfedges(self.faces[i]);
            add_halfedges_to(&mut acc, &ring);
            i += 1;
        }
        let ghost mid = acc@;
        let mut i: usize = 0;
        while i < self.vertices.len()
            invariant
                0 <= i <= self.vertices@.len(),
                c@ == smesh.graph(),
                mid == c@.add_face_loops(self.halfedges@, self.faces@, 0),
                c@.add_inner_edges(mid, self.vertices@, self.vertices@, 0) == c@.add_inner_edges(
                    acc@,
                    self.vertices@,
                    self.vertices@,
                    i as int,
                ),
                self.wf() ==> acc@.no_duplicates(),
            decreases self.vertices@.len() - i,
        {
            let around = c.vertex_halfedges(self.vertices[i]);
            let ghost before = acc@;
            let mut j: usize = 0;
            while j < around.len()
                invariant
                    0 <= j <= around@.len(),
                    0 <= i < self.vertices@.len(),
                    c@ == smesh.graph(),
                    mid == c@.add_face_loops(self.halfedges@, self.faces@, 0),
                    around@ == c@.vertex_halfedges(self.vertices@[i as int]),
                    c@.add_inner_edges(mid, self.vertices@, self.vertices@, 0)
                        == c@.add_inner_edges(before, self.vertices@, self.vertices@, i as int),
                    c@.add_pointing(before, self.vertices@, around@, 0) == c@.add_pointing(
                        acc@,
                        self.vertices@,
                        around@,
                        j as int,
                    ),
                    self.wf() ==> acc@.no_duplicates(),
                decreases around@.len() - j,
            {
                let dst = c.he_vertex(around[j])?;
                if has_vertex(&self.vertices, dst) {
                    add_halfedge_to(&mut acc, around[j]);
                }
                j += 1;
            }
            i += 1;
        }
        Ok(acc)
    }
}

impl SMesh {
    /// The selection of every vertex of the mesh.
    pub fn select_all(&self) -> (s: MeshSelection)
        ensures
            s.wf(),
            s@.halfedges == Seq::<HalfedgeId>::empty(),
            s@.faces == Seq::<FaceId>::empty(),
            forall|v: VertexId| s@.vertices.contains(v) <==> self.graph().vertices.contains_key(v),
    {
        let ids = self.vertices();
        let s = MeshSelection::from_vertices(ids);
        proof {
            lemma_seq_add_all_holds(Seq::<VertexId>::empty(), ids@, 0);
            lemma_seq_add_all_only(Seq::<VertexId>::empty(), ids@, 0);
            assert forall|v: VertexId| self.graph().vertices.contains_key(v) implies s@.vertices.contains(
                v,
            ) by {
                assert(ids@.contains(v));
                let k = choose|k: int| 0 <= k < ids@.len() && ids@[k] == v;
                assert(seq_add_all(Seq::<VertexId>::empty(), ids@, 0).contains(ids@[k]));
            }
        }
        s
    }
}

/// `seq_add_all` keeps what was there and holds what was added.
pub proof fn lemma_seq_add_all_holds<T>(s: Seq<T>, xs: Seq<T>, i: int)
    requires
        0 <= i <= xs.len(),
    ensures
        forall|y: T| s.contains(y) ==> #[trigger] seq_add_all(s, xs, i).contains(y),
        forall|k: int| i <= k < xs.len() ==> seq_add_all(s, xs, i).contains(#[trigger] xs[k]),
    decreases xs.len() - i,
{
    if i < xs.len() {
        let t = seq_add(s, xs[i]);
        lemma_seq_add_all_holds(t, xs, i + 1);
        let r = seq_add_all(t, xs, i + 1);
        assert(seq_add_all(s, xs, i) == r);
        assert(t.contains(xs[i])) by {
            if !s.contains(xs[i]) {
                assert(t[s.len() as int] == xs[i]);
            }
        }
        assert(r.contains(xs[i]));
        assert forall|y: T| s.contains(y) implies #[trigger] seq_add_all(s, xs, i).contains(y) by {
            let k = choose|k: int| 0 <= k < s.len() && s[k] == y;
            assert(t[k] == y);
            assert(t.contains(y));
            assert(r.contains(y));
        }
        assert forall|k: int| i <= k < xs.len() implies seq_add_all(s, xs, i).contains(
            #[trigger] xs[k],
        ) by {
            if k > i {
                assert(r.contains(xs[k]));
            }
        }
    }
}

/// `seq_add_all` holds nothing but what was there and what was added.
pub proof fn lemma_seq_add_all_only<T>(s: Seq<T>, xs: Seq<T>, i: int)
    requires
        0 <= i <= xs.len(),
    ensures
        forall|y: T| #[trigger] seq_add_all(s, xs, i).contains(y) ==> s.contains(y) || xs.contains(y),
    decreases xs.len() - i,
{
    if i < xs.len() {
        let t = seq_add(s, xs[i]);
        lemma_seq_add_all_only(t, xs, i + 1);
        let r = seq_add_all(t, xs, i + 1);
        assert(seq_add_all(s, xs, i) == r);
        assert forall|y: T| #[trigger] seq_add_all(s, xs, i).contains(y) implies s.contains(y)
            || xs.contains(y) by {
            assert(r.contains(y));
            if t.contains(y) && !s.contains(y) {
                let k = choose|k: int| 0 <= k < t.len() && t[k] == y;
                if k < s.len() {
                    assert(s[k] == y);
                } else {
                    assert(y == xs[i]);
                }
            }
        }
    }
}

impl MeshSelectionOps<VertexId> for MeshSelection {
    open spec fn with_item(picks: Picks, item: VertexId) -> Picks {
        Picks { vertices: seq_add(picks.vertices, item), ..picks }
    }

    open spec fn picks(&self) -> Picks {
        self@
    }

    fn insert(&mut self, item: VertexId)
        ensures
            old(self).wf() ==> final(self).wf(),
    {
        add_vertex_to(&mut self.vertices, item);
    }
}

impl MeshSelectionOps<HalfedgeId> for MeshSelection {
    open spec fn with_item(picks: Picks, item: HalfedgeId) -> Picks {
        Picks { halfedges: seq_add(picks.halfedges, item), ..picks }
    }

    open spec fn picks(&self) -> Picks {
        self@
    }

    fn insert(&mut self, item: HalfedgeId)
        ensures
            old(self).wf() ==> final(self).wf(),
    {
        add_halfedge_to(&mut self.halfedges, item);
    }
}

impl MeshSelectionOps<FaceId> for MeshSelection {
    open spec fn with_item(picks: Picks, item: FaceId) -> Picks {
        Picks { faces: seq_add(picks.faces, item), ..picks }
    }

    open spec fn picks(&self) -> Picks {
        self@
    }

    fn insert(&mut self, item: FaceId)
        ensures
            old(self).wf() ==> final(self).wf(),
    {
        add_face_to(&mut self.faces, item);
    }
}

} // verus!
