use vstd::prelude::*;
use crate::attribute::Point3;
use crate::edit_operations::wall;
use crate::error::{SMeshError, SMeshResult, MSG_NOT_A_CHAIN, MSG_NO_NEXT};
use crate::face_plan::next_index;
use crate::graph::Graph;
use crate::mesh::SMesh;
use crate::mesh_elements::{FaceId, HalfedgeId, VertexId};
use crate::world::{fresh_vertices, World};

verus! {

/// What the extrusion of an edge chain reads before it changes anything.
pub struct ChainSite {
    /// Both ends of each edge, in order.
    pub olds: Seq<VertexId>,
    /// Their positions.
    pub ps: Seq<Point3>,
    /// Whether the last edge leads back into the first.
    pub is_loop: bool,
}

impl ChainSite {
    /// The number of quads to build: one for each pair of neighbours in the
    /// list of ends, the pair of the last and the first only in a loop.
    pub open spec fn quads(self) -> int {
        if self.olds.len() == 0 {
            0
        } else if self.is_loop {
            self.olds.len() as int
        } else {
            self.olds.len() - 1
        }
    }
}

impl Graph {
    /// The boundary sides of the edges from the `i`-th on, after `acc`.
    pub open spec fn boundary_sides(self, edges: Seq<HalfedgeId>, i: int, acc: Seq<HalfedgeId>) -> SMeshResult<
        Seq<HalfedgeId>,
    >
        decreases edges.len() - i,
    {
        if i < 0 || i >= edges.len() {
            Ok(acc)
        } else {
            match self.boundary_side(edges[i]) {
                Err(e) => Err(e),
                Ok(b) => self.boundary_sides(edges, i + 1, acc.push(b)),
            }
        }
    }

    /// Whether the halfedges from the `i`-th on follow each other, and
    /// whether the last leads back into the first.
    pub open spec fn chain_closes(self, chain: Seq<HalfedgeId>, i: int) -> SMeshResult<bool>
        decreases chain.len() - i,
    {
        if i < 0 || i >= chain.len() {
            Ok(false)
        } else {
            let last = i == chain.len() - 1;
            match self.he_next(chain[i]) {
                Ok(n) => if n == chain[next_index(i, chain.len() as int)] {
                    if last {
                        Ok(true)
                    } else {
                        self.chain_closes(chain, i + 1)
                    }
                } else {
                    Err(SMeshError::CustomError(MSG_NOT_A_CHAIN))
                },
                Err(_) => if last {
                    Ok(false)
                } else {
                    Err(SMeshError::CustomError(MSG_NO_NEXT))
                },
            }
        }
    }

    /// Both ends of each halfedge from the `i`-th on, after `acc`.
    pub open spec fn chain_ends(self, chain: Seq<HalfedgeId>, i: int, acc: Seq<VertexId>) -> SMeshResult<
        Seq<VertexId>,
    >
        decreases chain.len() - i,
    {
        if i < 0 || i >= chain.len() {
            Ok(acc)
        } else {
            match self.src_vertex(chain[i]) {
                Err(e) => Err(e),
                Ok(src) => match self.he_vertex(chain[i]) {
                    Err(e) => Err(e),
                    Ok(dst) => self.chain_ends(chain, i + 1, acc.push(src).push(dst)),
                },
            }
        }
    }

    /// The graph `after` and the result `r` are what building the quads from
    /// the `k`-th up to the `count`-th makes of this graph: after each quad
    /// the halfedge between the two copies is looked up, and `r` holds those
    /// halfedges after `acc`, or the error of the first step that fails, at
    /// which the work stops.
    pub open spec fn chain_made(
        self,
        olds: Seq<VertexId>,
        news: Seq<VertexId>,
        k: int,
        count: int,
        acc: Seq<HalfedgeId>,
        after: Graph,
        r: SMeshResult<Seq<HalfedgeId>>,
    ) -> bool
        decreases count - k,
    {
        if k < 0 || k >= count {
            after == self && r == Ok::<Seq<HalfedgeId>, SMeshError>(acc)
        } else {
            exists|mid: Graph, made: SMeshResult<FaceId>|
                #![trigger self.made_face(wall(olds, news, k), mid, made)]
                self.made_face(wall(olds, news, k), mid, made) && (match made {
                    Err(e) => after == mid && r == Err::<Seq<HalfedgeId>, SMeshError>(e),
                    Ok(_) => match mid.halfedge_to(
                        news[k],
                        news[next_index(k, olds.len() as int)],
                    ) {
                        Err(e) => after == mid && r == Err::<Seq<HalfedgeId>, SMeshError>(e),
                        Ok(h) => mid.chain_made(olds, news, k + 1, count, acc.push(h), after, r),
                    },
                })
        }
    }
}

impl World {
    /// What the extrusion of an edge chain reads before it changes anything,
    /// or the reason why it cannot start.
    pub open spec fn chain_site(self, edges: Seq<HalfedgeId>) -> SMeshResult<ChainSite> {
        match self.g.boundary_sides(edges, 0, Seq::empty()) {
            Err(e) => Err(e),
            Ok(chain) => match self.g.chain_closes(chain, 0) {
                Err(e) => Err(e),
                Ok(is_loop) => match self.g.chain_ends(chain, 0, Seq::empty()) {
                    Err(e) => Err(e),
                    Ok(olds) => match self.positions(olds, 0, Seq::empty()) {
                        Err(e) => Err(e),
                        Ok(ps) => Ok(ChainSite { olds, ps, is_loop }),
                    },
                },
            },
        }
    }

    /// The extrusion of an edge chain with `news` as the copies of the ends.
    pub open spec fn chain_extruded_with(
        self,
        site: ChainSite,
        news: Seq<VertexId>,
        after: World,
        r: SMeshResult<Seq<HalfedgeId>>,
    ) -> bool {
        let w1 = self.with_copies(site.ps, news);
        &&& news.len() == site.olds.len()
        &&& fresh_vertices(self.g, news)
        &&& after.a == w1.a
        &&& w1.g.chain_made(site.olds, news, 0, site.quads(), Seq::empty(), after.g, r)
    }

    /// The extrusion of an edge chain under some fresh identifiers.
    pub open spec fn chain_extruded_somehow(
        self,
        site: ChainSite,
        after: World,
        r: SMeshResult<Seq<HalfedgeId>>,
    ) -> bool {
        exists|news: Seq<VertexId>| #[trigger] self.chain_extruded_with(site, news, after, r)
    }

    /// The world `after` and the result `r` are what extruding a chain of
    /// edges makes of this world. Nothing is changed where an edge has no
    /// boundary side, the boundary sides do not follow each other, or an end
    /// has no position. Else both ends of every edge get a copy, and a quad
    /// is built between each two neighbours in the list of ends and their
    /// copies; the result holds the halfedge between the copies for each
    /// quad.
    pub open spec fn chain_extruded(
        self,
        edges: Seq<HalfedgeId>,
        after: World,
        r: SMeshResult<Seq<HalfedgeId>>,
    ) -> bool {
        match self.chain_site(edges) {
            Err(e) => after == self && r == Err::<Seq<HalfedgeId>, SMeshError>(e),
            Ok(site) => self.chain_extruded_somehow(site, after, r),
        }
    }
}

/// The result of a chain extrusion as a value.
pub open spec fn halfedges_view(r: SMeshResult<Vec<HalfedgeId>>) -> SMeshResult<Seq<HalfedgeId>> {
    match r {
        Ok(hs) => Ok(hs@),
        Err(e) => Err(e),
    }
}

impl SMesh {
    fn boundary_sides(&self, edges: &Vec<HalfedgeId>) -> (r: SMeshResult<Vec<HalfedgeId>>)
        ensures
            halfedges_view(r) == self.graph().boundary_sides(edges@, 0, Seq::empty()),
            r is Ok ==> r->Ok_0@.len() == edges@.len(),
    {
        let mut acc: Vec<HalfedgeId> = Vec::new();
        let mut i: usize = 0;
        while i < edges.len()
            invariant
                0 <= i <= edges@.len(),
                acc@.len() == i,
                self.graph().boundary_sides(edges@, 0, Seq::empty()) == self.graph().boundary_sides(
                    edges@,
                    i as int,
                    acc@,
                ),
            decreases edges@.len() - i,
        {
            let b = self.boundary_side(edges[i])?;
            acc.push(b);
            i += 1;
        }
        Ok(acc)
    }

    fn chain_closes(&self, chain: &Vec<HalfedgeId>) -> (r: SMeshResult<bool>)
        ensures
            r == self.graph().chain_closes(chain@, 0),
    {
        let n = chain.len();
        let mut i: usize = 0;
        while i < n
            invariant
                0 <= i <= n,
                n == chain@.len(),
                self.graph().chain_closes(chain@, 0) == self.graph().chain_closes(chain@, i as int),
            decreases n - i,
        {
            let j = if i + 1 >= n {
                0
            } else {
                i + 1
            };
            let last = i == n - 1;
            match self.connectivity.he_next(chain[i]) {
                Ok(nx) => {
                    if nx == chain[j] {
                        if last {
                            return Ok(true);
                        }
                    } else {
                        return Err(SMeshError::CustomError(MSG_NOT_A_CHAIN));
                    }
                },
                Err(_) => {
                    if last {
                        return Ok(false);
                    } else {
                        return Err(SMeshError::CustomError(MSG_NO_NEXT));
                    }
                },
            }
            i += 1;
        }
        Ok(false)
    }

    fn chain_ends(&self, chain: &Vec<HalfedgeId>) -> (r: SMeshResult<Vec<VertexId>>)
        ensures
            match r {
                Ok(vs) => self.graph().chain_ends(chain@, 0, Seq::empty()) == Ok::<
                    Seq<VertexId>,
                    SMeshError,
                >(vs@) && vs@.len() == 2 * chain@.len(),
                Err(e) => self.graph().chain_ends(chain@, 0, Seq::empty()) == Err::<
                    Seq<VertexId>,
                    SMeshError,
                >(e),
            },
    {
        let mut acc: Vec<VertexId> = Vec::new();
        let mut i: usize = 0;
        while i < chain.len()
            invariant
                0 <= i <= chain@.len(),
                acc@.len() == 2 * i,
                self.graph().chain_ends(chain@, 0, Seq::empty()) == self.graph().chain_ends(
                    chain@,
                    i as int,
                    acc@,
                ),
            decreases chain@.len() - i,
        {
            let src = self.connectivity.src_vertex(chain[i])?;
            let dst = self.connectivity.he_vertex(chain[i])?;
            acc.push(src);
            acc.push(dst);
            i += 1;
        }
        Ok(acc)
    }

    fn build_chain(&mut self, olds: &Vec<VertexId>, news: &Vec<VertexId>, count: usize) -> (r:
        SMeshResult<Vec<HalfedgeId>>)
        requires
            olds@.len() == news@.len(),
            count <= olds@.len(),
            old(self).room().covers(0, 8 * count, count as int),
        ensures
            old(self).graph().chain_made(
                olds@,
                news@,
                0,
                count as int,
                Seq::empty(),
                final(self).graph(),
                halfedges_view(r),
            ),
            final(self).attributes() == old(self).attributes(),
            final(self).room().within(old(self).room(), 0, 8 * count, count as int),
    {
        let n = olds.len();
        let ghost g0 = self.graph();
        let mut acc: Vec<HalfedgeId> = Vec::new();
        let mut k: usize = 0;
        while k < count
            invariant
                0 <= k <= count,
                count <= n,
                n == olds@.len(),
                n == news@.len(),
                g0 == old(self).graph(),
                self.attributes() == old(self).attributes(),
                old(self).room().covers(0, 8 * count, count as int),
                self.room().within(old(self).room(), 0, 8 * k, k as int),
                forall|after: Graph, r: SMeshResult<Seq<HalfedgeId>>|
                    #[trigger] self.graph().chain_made(
                        olds@,
                        news@,
                        k as int,
                        count as int,
                        acc@,
                        after,
                        r,
                    ) ==> g0.chain_made(olds@, news@, 0, count as int, Seq::empty(), after, r),
            decreases count - k,
        {
            let j = if k + 1 >= n {
                0
            } else {
                k + 1
            };
            let ghost before = self.graph();
            let ghost acc_before = acc@;
            let mut quad: Vec<VertexId> = Vec::new();
            quad.push(olds[k]);
            quad.push(olds[j]);
            quad.push(news[j]);
            quad.push(news[k]);
            proof {
                assert(quad@ =~= wall(olds@, news@, k as int));
            }
            let made = self.make_face(quad);
            proof {
                assert(before.made_face(wall(olds@, news@, k as int), self.graph(), made));
            }
            match made {
                Err(e) => {
                    proof {
                        assert(before.chain_made(
                            olds@,
                            news@,
                            k as int,
                            count as int,
                            acc_before,
                            self.graph(),
                            Err::<Seq<HalfedgeId>, SMeshError>(e),
                        ));
                    }
                    return Err(e);
                },
                Ok(_) => {},
            }
            match self.connectivity.halfedge_to(news[k], news[j]) {
                Err(e) => {
                    proof {
                        assert(before.chain_made(
                            olds@,
                            news@,
                            k as int,
                            count as int,
                            acc_before,
                            self.graph(),
                            Err::<Seq<HalfedgeId>, SMeshError>(e),
                        ));
                    }
                    return Err(e);
                },
                Ok(h) => {
                    acc.push(h);
                    proof {
                        assert forall|after: Graph, r: SMeshResult<Seq<HalfedgeId>>|
                            #[trigger] self.graph().chain_made(
                                olds@,
                                news@,
                                k + 1,
                                count as int,
                                acc@,
                                after,
                                r,
                            ) implies g0.chain_made(
                            olds@,
                            news@,
                            0,
                            count as int,
                            Seq::empty(),
                            after,
                            r,
                        ) by {
                            assert(before.made_face(wall(olds@, news@, k as int), self.graph(), made));
                            assert(before.chain_made(
                                olds@,
                                news@,
                                k as int,
                                count as int,
                                acc_before,
                                after,
                                r,
                            ));
                        }
                    }
                },
            }
            k += 1;
        }
        proof {
            assert(self.graph().chain_made(
                olds@,
                news@,
                k as int,
                count as int,
                acc@,
                self.graph(),
                Ok::<Seq<HalfedgeId>, SMeshError>(acc@),
            ));
        }
        Ok(acc)
    }

    /// `extrude_edge_chain` with its exact contract.
    fn extrude_edge_chain_exact(&mut self, edges: Vec<HalfedgeId>) -> (r: SMeshResult<Vec<HalfedgeId>>)
        requires
            old(self).room().covers(
                2 * (edges@.len() as int),
                16 * (edges@.len() as int),
                2 * (edges@.len() as int),
            ),
        ensures
            old(self).world().chain_extruded(edges@, final(self).world(), halfedges_view(r)),
            final(self).room().within(
                old(self).room(),
                2 * (edges@.len() as int),
                16 * (edges@.len() as int),
                2 * (edges@.len() as int),
            ),
    {
        let chain = self.boundary_sides(&edges)?;
        let is_loop = self.chain_closes(&chain)?;
        let olds = self.chain_ends(&chain)?;
        let ps = self.positions_of(&olds)?;
        let ghost site = ChainSite { olds: olds@, ps: ps@, is_loop };
        let news = self.add_vertices(&ps);
        let count = if olds.len() == 0 {
            0
        } else if is_loop {
            olds.len()
        } else {
            olds.len() - 1
        };
        let r = self.build_chain(&olds, &news, count);
        proof {
            assert(old(self).world().chain_extruded_with(
                site,
                news@,
                self.world(),
                halfedges_view(r),
            ));
        }
        r
    }

    /// Extrudes a chain of edges: both ends of every edge are copied, and a
    /// quad is built between each two neighbours in the list of ends and
    /// their copies. Gives the halfedge between the copies for each quad.
    pub fn extrude_edge_chain(&mut self, edges: Vec<HalfedgeId>) -> (r: SMeshResult<Vec<HalfedgeId>>)
        requires
            old(self).room().covers(
                2 * (edges@.len() as int),
                16 * (edges@.len() as int),
                2 * (edges@.len() as int),
            ),
        ensures
            old(self).world().chain_extruded(edges@, final(self).world(), halfedges_view(r)),
            final(self).room().within(
                old(self).room(),
                2 * (edges@.len() as int),
                16 * (edges@.len() as int),
                2 * (edges@.len() as int),
            ),
            old(self).graph().paired() ==> final(self).graph().paired(),
    {
        let ghost w = self.world();
        let ghost picked = edges@;
        let r = self.extrude_edge_chain_exact(edges);
        proof {
            if w.g.paired() {
                w.law_chain_extrusion_keeps_pairs(picked, self.world(), halfedges_view(r));
            }
        }
        r
    }
}

} // verus!
