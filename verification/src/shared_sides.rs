use vstd::prelude::*;
use crate::edit::Edit;
use crate::error::{SMeshError, SMeshResult};
use crate::face_plan::{face_sides, fresh_sides, link_corner, link_corners, next_index, LinkState};
use crate::graph::Graph;
use crate::mesh_elements::{FaceId, Halfedge, HalfedgeId, VertexId};
use crate::face_ring::{lemma_adjust_all_keeps_halfedges, lemma_link_corners_keep_faces};
use crate::polygon::{bare_inner, bare_outer, lemma_loop_walk, lemma_targets_of_live, prev_index};

verus! {

impl Graph {
    /// The halfedge before the halfedge `h` ends where the opposite of `h`
    /// ends: both end at the vertex that `h` leaves.
    pub open spec fn joined_at(self, h: HalfedgeId) -> bool {
        self.halfedges.contains_key(h) ==> (match (
            self.halfedges[h].prev,
            self.halfedges[h].opposite,
        ) {
            (Some(p), Some(o)) => self.halfedges[p].vertex == self.halfedges[o].vertex,
            _ => true,
        })
    }

    /// The halfedge that the vertex `v` stores, if it stores one, leaves
    /// `v`.
    pub open spec fn spoke_at(self, v: VertexId) -> bool {
        self.vertices.contains_key(v) ==> (match self.vertices[v].halfedge {
            Some(h) => self.src_vertex(h) == Ok::<VertexId, SMeshError>(v),
            None => true,
        })
    }

    /// The graph is in order: the links of every halfedge are whole and
    /// sound, the halfedges that meet at a vertex agree on it, every vertex
    /// stores a halfedge that leaves it, and the halfedges are counted.
    pub open spec fn in_order(self) -> bool {
        &&& self.links_sound()
        &&& self.links_whole()
        &&& self.halfedges_counted()
        &&& forall|h: HalfedgeId| #[trigger] self.joined_at(h)
        &&& forall|v: VertexId| #[trigger] self.spoke_at(v)
    }

    /// In a graph in order a clockwise step stays at the vertex.
    pub proof fn lemma_cw_stays(self, h: HalfedgeId, v: VertexId)
        requires
            self.in_order(),
            self.src_vertex(h) == Ok::<VertexId, SMeshError>(v),
            self.cw(h) is Ok,
        ensures
            self.src_vertex(self.cw(h)->Ok_0) == Ok::<VertexId, SMeshError>(v),
    {
        let o = self.halfedges[h].opposite->Some_0;
        let n = self.cw(h)->Ok_0;
        assert(self.sound_at(h));
        assert(self.sound_at(o));
        assert(self.sound_at(n));
        assert(self.joined_at(n));
        assert(self.whole_at(n));
        assert(self.halfedges[n].prev == Some(o));
    }

    /// In a graph in order the search for a halfedge from a halfedge that
    /// leaves `v0` finds one that leaves `v0` and points to the target.
    pub proof fn lemma_seek_leaves(
        self,
        start: HalfedgeId,
        cur: HalfedgeId,
        v0: VertexId,
        target: VertexId,
        fuel: nat,
    )
        requires
            self.in_order(),
            self.src_vertex(cur) == Ok::<VertexId, SMeshError>(v0),
            self.seek(start, cur, target, fuel) is Ok,
        ensures
            self.src_vertex(self.seek(start, cur, target, fuel)->Ok_0) == Ok::<
                VertexId,
                SMeshError,
            >(v0),
            self.he_vertex(self.seek(start, cur, target, fuel)->Ok_0) == Ok::<
                VertexId,
                SMeshError,
            >(target),
        decreases fuel,
    {
        if fuel > 0 {
            if self.he_vertex(cur) != Ok::<VertexId, SMeshError>(target) {
                let nx = self.cw(cur)->Ok_0;
                self.lemma_cw_stays(cur, v0);
                self.lemma_seek_leaves(start, nx, v0, target, (fuel - 1) as nat);
            }
        }
    }

    /// In a graph in order the search for a gap from a live halfedge that
    /// points to `v` finds a live halfedge that points to `v`.
    pub proof fn lemma_find_gap_points(
        self,
        inner_prev: HalfedgeId,
        cur: HalfedgeId,
        v: VertexId,
        fuel: nat,
    )
        requires
            self.in_order(),
            self.he_vertex(cur) == Ok::<VertexId, SMeshError>(v),
            self.find_gap(inner_prev, cur, fuel) is Ok,
        ensures
            self.he_vertex(self.find_gap(inner_prev, cur, fuel)->Ok_0) == Ok::<
                VertexId,
                SMeshError,
            >(v),
        decreases fuel,
    {
        if fuel > 0 {
            let n = self.he_next(cur)->Ok_0;
            let b = self.he_opposite(n)->Ok_0;
            assert(self.sound_at(cur));
            assert(self.sound_at(n));
            assert(self.joined_at(n));
            assert(self.halfedges[n].prev == Some(cur));
            assert(self.he_vertex(b) == Ok::<VertexId, SMeshError>(v));
            if !(self.he_is_boundary(b) || b == inner_prev) {
                self.lemma_find_gap_points(inner_prev, b, v, (fuel - 1) as nat);
            }
        }
    }
}

/// Each side that is there already runs from its corner to the next.
pub open spec fn sides_run(g: Graph, vs: Seq<VertexId>, existing: Seq<Option<HalfedgeId>>, upto: int) -> bool {
    forall|k: int|
        0 <= k < upto ==> (match #[trigger] existing[k] {
            Some(h) => g.src_vertex(h) == Ok::<VertexId, SMeshError>(vs[k]) && g.he_vertex(h) == Ok::<
                VertexId,
                SMeshError,
            >(vs[next_index(k, vs.len() as int)]) && g.he_face(h) is Err,
            None => true,
        })
}

impl Graph {
    /// In a graph in order the sides that the scan finds run from corner to
    /// corner.
    pub proof fn lemma_scan_sides_run(
        self,
        vs: Seq<VertexId>,
        i: int,
        acc: Seq<Option<HalfedgeId>>,
    )
        requires
            self.in_order(),
            0 <= i <= vs.len(),
            acc.len() == i,
            sides_run(self, vs, acc, i),
            self.scan_sides(vs, i, acc) is Ok,
        ensures
            self.scan_sides(vs, i, acc)->Ok_0.len() == vs.len(),
            sides_run(self, vs, self.scan_sides(vs, i, acc)->Ok_0, vs.len() as int),
        decreases vs.len() - i,
    {
        if i < vs.len() {
            let v0 = vs[i];
            let v1 = vs[next_index(i, vs.len() as int)];
            let side = self.face_side(v0, v1)->Ok_0;
            let next = acc.push(side);
            match side {
                Some(h) => {
                    let h0 = self.vertex_halfedge(v0)->Ok_0;
                    assert(self.spoke_at(v0));
                    self.lemma_seek_leaves(h0, h0, v0, v1, self.n_halfedges);
                },
                None => {},
            }
            assert forall|k: int| 0 <= k < i + 1 implies (match #[trigger] next[k] {
                Some(h) => self.src_vertex(h) == Ok::<VertexId, SMeshError>(vs[k]) && self.he_vertex(
                    h,
                ) == Ok::<VertexId, SMeshError>(vs[next_index(k, vs.len() as int)]) && self.he_face(
                    h,
                ) is Err,
                None => true,
            }) by {
                if k < i {
                    assert(next[k] == acc[k]);
                }
            }
            self.lemma_scan_sides_run(vs, i + 1, next);
        }
    }
}

/// What making the missing sides from the `i`-th on leaves: nothing fails,
/// the vertices, the faces and the halfedges that were there are as they
/// were, each missing side is a pair of bare halfedges, and the halfedges are
/// still counted.
pub proof fn lemma_sides_built(
    e: Edit,
    vs: Seq<VertexId>,
    existing: Seq<Option<HalfedgeId>>,
    keys: Seq<(HalfedgeId, HalfedgeId)>,
    i: int,
)
    requires
        e.err is None,
        e.g.halfedges_counted(),
        0 <= i <= vs.len(),
        keys.len() == vs.len(),
        existing.len() == vs.len(),
        forall|k: int|
            i <= k < existing.len() && existing[k] is None ==> !e.g.halfedges.contains_key(
                (#[trigger] keys[k]).0,
            ) && !e.g.halfedges.contains_key(keys[k].1) && keys[k].0 != keys[k].1,
        forall|k: int, l: int|
            i <= k < l < existing.len() && existing[k] is None && existing[l] is None ==> (
            #[trigger] keys[k]).0 != (#[trigger] keys[l]).0 && keys[k].0 != keys[l].1 && keys[k].1
                != keys[l].0 && keys[k].1 != keys[l].1,
    ensures
        e.create_sides(vs, existing, keys, i).err is None,
        e.create_sides(vs, existing, keys, i).g.vertices == e.g.vertices,
        e.create_sides(vs, existing, keys, i).g.faces == e.g.faces,
        e.create_sides(vs, existing, keys, i).g.n_faces == e.g.n_faces,
        e.create_sides(vs, existing, keys, i).g.halfedges_counted(),
        forall|h: HalfedgeId| #[trigger]
            e.g.halfedges.contains_key(h) ==> e.create_sides(
                vs,
                existing,
                keys,
                i,
            ).g.halfedges.contains_key(h) && e.create_sides(vs, existing, keys, i).g.halfedges[h]
                == e.g.halfedges[h],
        forall|k: int|
            i <= k < vs.len() && existing[k] is None ==> e.create_sides(
                vs,
                existing,
                keys,
                i,
            ).g.halfedges.contains_key((#[trigger] keys[k]).0) && e.create_sides(
                vs,
                existing,
                keys,
                i,
            ).g.halfedges[keys[k].0] == bare_inner(vs, keys, k) && e.create_sides(
                vs,
                existing,
                keys,
                i,
            ).g.halfedges.contains_key(keys[k].1) && e.create_sides(
                vs,
                existing,
                keys,
                i,
            ).g.halfedges[keys[k].1] == bare_outer(vs, keys, k),
        forall|h: HalfedgeId| #[trigger]
            e.create_sides(vs, existing, keys, i).g.halfedges.contains_key(h)
                ==> e.g.halfedges.contains_key(h) || exists|k: int|
                i <= k < vs.len() && existing[k] is None && (h == (#[trigger] keys[k]).0 || h
                    == keys[k].1),
        e.create_sides(vs, existing, keys, i).g.n_vertices == e.g.n_vertices,
    decreases vs.len() - i,
{
    if i < vs.len() {
        let step = match existing[i] {
            Some(_) => e,
            None => e.add_edge(vs[i], vs[next_index(i, vs.len() as int)], keys[i].0, keys[i].1),
        };
        if existing[i] is None {
            assert(step.g.halfedges.dom() =~= e.g.halfedges.dom().insert(keys[i].0).insert(
                keys[i].1,
            ));
            assert(step.g.halfedges_counted());
            assert forall|k: int|
                i + 1 <= k < existing.len() && existing[k] is None implies !step.g.halfedges.contains_key(
                (#[trigger] keys[k]).0,
            ) && !step.g.halfedges.contains_key(keys[k].1) && keys[k].0 != keys[k].1 by {
                assert(keys[i].0 != keys[k].0);
            }
            assert(step.g.halfedges[keys[i].0] == bare_inner(vs, keys, i));
            assert(step.g.halfedges[keys[i].1] == bare_outer(vs, keys, i));
        }
        lemma_sides_built(step, vs, existing, keys, i + 1);
        let r = e.create_sides(vs, existing, keys, i);
        assert(r == step.create_sides(vs, existing, keys, i + 1));
        assert forall|h: HalfedgeId| #[trigger] e.g.halfedges.contains_key(h) implies
            r.g.halfedges.contains_key(h) && r.g.halfedges[h] == e.g.halfedges[h] by {
            if existing[i] is None {
                assert(!e.g.halfedges.contains_key(keys[i].0));
                assert(h != keys[i].0 && h != keys[i].1);
            }
            assert(step.g.halfedges.contains_key(h));
            assert(step.g.halfedges[h] == e.g.halfedges[h]);
            assert(step.create_sides(vs, existing, keys, i + 1).g.halfedges.contains_key(h));
        }
        assert forall|k: int| i <= k < vs.len() && existing[k] is None implies r.g.halfedges.contains_key(
            (#[trigger] keys[k]).0,
        ) && r.g.halfedges[keys[k].0] == bare_inner(vs, keys, k) && r.g.halfedges.contains_key(
            keys[k].1,
        ) && r.g.halfedges[keys[k].1] == bare_outer(vs, keys, k) by {
            if k == i {
                assert(step.g.halfedges.contains_key(keys[i].0));
                assert(step.g.halfedges.contains_key(keys[i].1));
            }
        }
        assert forall|h: HalfedgeId| #[trigger] r.g.halfedges.contains_key(h) implies e.g.halfedges.contains_key(
            h,
        ) || exists|k: int|
            i <= k < vs.len() && existing[k] is None && (h == (#[trigger] keys[k]).0 || h
                == keys[k].1) by {
            if !e.g.halfedges.contains_key(h) {
                if step.g.halfedges.contains_key(h) {
                    assert(existing[i] is None && (h == keys[i].0 || h == keys[i].1));
                } else {
                    let k = choose|k: int|
                        i + 1 <= k < vs.len() && existing[k] is None && (h == (
                        #[trigger] keys[k]).0 || h == keys[k].1);
                    assert(i <= k < vs.len() && existing[k] is None && (h == keys[k].0 || h
                        == keys[k].1));
                }
            }
        }
    } else {
        assert(e.create_sides(vs, existing, keys, i) == e);
    }
}

/// The link that chains the `c`-th side to the side after it.
pub open spec fn side_link(sides: Seq<(HalfedgeId, bool)>, c: int) -> (HalfedgeId, HalfedgeId) {
    (sides[c].0, sides[next_index(c, sides.len() as int)].0)
}

/// The corner after the `c`-th side needs links: one of its two sides is
/// new, or the two do not follow each other yet.
pub open spec fn noted(g: Graph, sides: Seq<(HalfedgeId, bool)>, c: int) -> bool {
    sides[c].1 || sides[next_index(c, sides.len() as int)].1 || g.he_next(sides[c].0) != Ok::<
        HalfedgeId,
        SMeshError,
    >(sides[next_index(c, sides.len() as int)].0)
}

/// The link `l` stands at the place `j2`, which is `j` or a later one.
pub open spec fn later_at(
    cache: Seq<(HalfedgeId, HalfedgeId)>,
    j: int,
    j2: int,
    l: (HalfedgeId, HalfedgeId),
) -> bool {
    j <= j2 < cache.len() && cache[j2] == l
}

/// The link at the place `j` belongs to the corner after the `c`-th side:
/// it starts at a halfedge that ends at that corner, the corner needs
/// links, and the link that chains its two sides stands at `j` or later.
pub open spec fn owns(
    built: Graph,
    g: Graph,
    cache: Seq<(HalfedgeId, HalfedgeId)>,
    vs: Seq<VertexId>,
    sides: Seq<(HalfedgeId, bool)>,
    j: int,
    c: int,
) -> bool {
    &&& 0 <= c < vs.len()
    &&& built.he_vertex(cache[j].0) == Ok::<VertexId, SMeshError>(vs[next_index(c, vs.len() as int)])
    &&& noted(g, sides, c)
    &&& exists|j2: int| #[trigger] later_at(cache, j, j2, side_link(sides, c))
}

/// The link at the place `j`, if there is one, belongs to a corner.
pub open spec fn owned_at(
    built: Graph,
    g: Graph,
    cache: Seq<(HalfedgeId, HalfedgeId)>,
    vs: Seq<VertexId>,
    sides: Seq<(HalfedgeId, bool)>,
    j: int,
) -> bool {
    0 <= j < cache.len() ==> exists|c: int| #[trigger] owns(built, g, cache, vs, sides, j, c)
}

/// Every link belongs to a corner.
pub open spec fn owned(
    built: Graph,
    g: Graph,
    cache: Seq<(HalfedgeId, HalfedgeId)>,
    vs: Seq<VertexId>,
    sides: Seq<(HalfedgeId, bool)>,
) -> bool {
    forall|j: int| #[trigger] owned_at(built, g, cache, vs, sides, j)
}

/// The link of the corner after the `c`-th side is among the links.
pub open spec fn has_link(
    cache: Seq<(HalfedgeId, HalfedgeId)>,
    sides: Seq<(HalfedgeId, bool)>,
    c: int,
) -> bool {
    exists|j: int| #[trigger] later_at(cache, 0, j, side_link(sides, c))
}

/// Links that belong to one corner and end with its own link can follow
/// links that are owned.
pub proof fn lemma_group_owned(
    built: Graph,
    g: Graph,
    before: Seq<(HalfedgeId, HalfedgeId)>,
    group: Seq<(HalfedgeId, HalfedgeId)>,
    vs: Seq<VertexId>,
    sides: Seq<(HalfedgeId, bool)>,
    i: int,
)
    requires
        owned(built, g, before, vs, sides),
        0 <= i < vs.len(),
        group.len() > 0 ==> group.last() == side_link(sides, i) && noted(g, sides, i),
        forall|j: int|
            0 <= j < group.len() ==> built.he_vertex((#[trigger] group[j]).0) == Ok::<
                VertexId,
                SMeshError,
            >(vs[next_index(i, vs.len() as int)]),
    ensures
        owned(built, g, before + group, vs, sides),
        group.len() > 0 ==> has_link(before + group, sides, i),
        forall|c: int| has_link(before, sides, c) ==> has_link(before + group, sides, c),
{
    let all = before + group;
    assert forall|j: int| #[trigger] owned_at(built, g, all, vs, sides, j) by {
        if j < 0 || j >= all.len() {
        } else if j < before.len() {
            assert(all[j] == before[j]);
            assert(owned_at(built, g, before, vs, sides, j));
            let c = choose|c: int| #[trigger] owns(built, g, before, vs, sides, j, c);
            let j2 = choose|j2: int| #[trigger] later_at(before, j, j2, side_link(sides, c));
            assert(all[j2] == before[j2]);
            assert(later_at(all, j, j2, side_link(sides, c)));
            assert(owns(built, g, all, vs, sides, j, c));
        } else {
            assert(all[j] == group[j - before.len()]);
            assert(all[all.len() - 1] == group.last());
            assert(later_at(all, j, all.len() - 1, side_link(sides, i)));
            assert(owns(built, g, all, vs, sides, j, i));
        }
    }
    if group.len() > 0 {
        assert(all[all.len() - 1] == group.last());
        assert(later_at(all, 0, all.len() - 1, side_link(sides, i)));
    }
    assert forall|c: int| has_link(before, sides, c) implies has_link(all, sides, c) by {
        let j = choose|j: int| #[trigger] later_at(before, 0, j, side_link(sides, c));
        assert(all[j] == before[j]);
        assert(later_at(all, 0, j, side_link(sides, c)));
    }
}

/// Where to the last link from the `k`-th on that starts at `h` leads.
pub open spec fn last_target(cache: Seq<(HalfedgeId, HalfedgeId)>, h: HalfedgeId, k: int) -> Option<
    HalfedgeId,
>
    decreases cache.len() - k,
{
    if k < 0 || k >= cache.len() {
        None
    } else {
        match last_target(cache, h, k + 1) {
            Some(b) => Some(b),
            None => if cache[k].0 == h {
                Some(cache[k].1)
            } else {
                None
            },
        }
    }
}

/// Once the links are made, a live halfedge leads where the last link that
/// starts at it says, or where it led if none does. Nothing else of it is
/// changed, and no face.
pub proof fn lemma_last_link_wins(e: Edit, cache: Seq<(HalfedgeId, HalfedgeId)>, k: int, h: HalfedgeId)
    requires
        e.err is None,
        0 <= k <= cache.len(),
        e.apply_links(cache, k).err is None,
        e.g.halfedges.contains_key(h),
    ensures
        e.apply_links(cache, k).g.halfedges.contains_key(h),
        e.apply_links(cache, k).g.halfedges[h].vertex == e.g.halfedges[h].vertex,
        e.apply_links(cache, k).g.faces == e.g.faces,
        e.apply_links(cache, k).g.n_halfedges == e.g.n_halfedges,
        e.apply_links(cache, k).g.halfedges.dom() == e.g.halfedges.dom(),
        e.apply_links(cache, k).g.halfedges[h].next == (match last_target(cache, h, k) {
            Some(b) => Some(b),
            None => e.g.halfedges[h].next,
        }),
    decreases cache.len() - k,
{
    if k < cache.len() {
        let linked = e.set_next(cache[k].0, Some(cache[k].1));
        assert(linked.err is None);
        assert(linked.g.halfedges.contains_key(h));
        assert(linked.g.halfedges.dom() =~= e.g.halfedges.dom());
        lemma_last_link_wins(linked, cache, k + 1, h);
        if cache[k].0 == h {
            assert(linked.g.halfedges[h].next == Some(cache[k].1));
        } else {
            assert(linked.g.halfedges[h].next == e.g.halfedges[h].next);
        }
    }
}

/// Where every link that starts at `h` has the link `(h, b)` at its place
/// or later, the last link that starts at `h` leads to `b`.
pub proof fn lemma_last_target(cache: Seq<(HalfedgeId, HalfedgeId)>, h: HalfedgeId, b: HalfedgeId, k: int)
    requires
        0 <= k <= cache.len(),
        forall|j: int|
            #![trigger cache[j]]
            k <= j < cache.len() && cache[j].0 == h ==> exists|j2: int| #[trigger]
                later_at(cache, j, j2, (h, b)),
    ensures
        (exists|j: int| #[trigger] later_at(cache, k, j, (h, b))) ==> last_target(cache, h, k)
            == Some(b),
        last_target(cache, h, k) is Some ==> last_target(cache, h, k) == Some(b),
    decreases cache.len() - k,
{
    if k < cache.len() {
        lemma_last_target(cache, h, b, k + 1);
        if last_target(cache, h, k + 1) is None {
            if cache[k].0 == h {
                let j2 = choose|j2: int| #[trigger] later_at(cache, k, j2, (h, b));
                if j2 > k {
                    assert(later_at(cache, k + 1, j2, (h, b)));
                }
            }
            if exists|j: int| #[trigger] later_at(cache, k, j, (h, b)) {
                let j = choose|j: int| #[trigger] later_at(cache, k, j, (h, b));
                if j > k {
                    assert(later_at(cache, k + 1, j, (h, b)));
                }
            }
        }
    }
}

/// The stage on which the corners of a face are linked: a graph `g` in
/// order, different corners, the sides that were found in `g`, and the graph
/// `built` in which the missing sides were made under fresh identifiers.
pub open spec fn stage(
    g: Graph,
    built: Graph,
    vs: Seq<VertexId>,
    existing: Seq<Option<HalfedgeId>>,
    keys: Seq<(HalfedgeId, HalfedgeId)>,
) -> bool {
    &&& g.in_order()
    &&& vs.no_duplicates()
    &&& vs.len() >= 3
    &&& existing.len() == vs.len()
    &&& keys.len() == vs.len()
    &&& sides_run(g, vs, existing, vs.len() as int)
    &&& fresh_sides(g, existing, keys)
    &&& built.vertices == g.vertices
    &&& forall|h: HalfedgeId| #[trigger]
        g.halfedges.contains_key(h) ==> built.halfedges.contains_key(h) && built.halfedges[h]
            == g.halfedges[h]
    &&& forall|k: int|
        0 <= k < vs.len() && existing[k] is None ==> built.halfedges.contains_key(
            (#[trigger] keys[k]).0,
        ) && built.halfedges[keys[k].0] == bare_inner(vs, keys, k) && built.halfedges.contains_key(
            keys[k].1,
        ) && built.halfedges[keys[k].1] == bare_outer(vs, keys, k)
}

/// On the stage each side runs from its corner to the next, whether it was
/// found or made.
pub proof fn lemma_sides_set(
    g: Graph,
    built: Graph,
    vs: Seq<VertexId>,
    existing: Seq<Option<HalfedgeId>>,
    keys: Seq<(HalfedgeId, HalfedgeId)>,
    k: int,
)
    requires
        stage(g, built, vs, existing, keys),
        0 <= k < vs.len(),
    ensures
        built.he_vertex(face_sides(existing, keys)[k].0) == Ok::<VertexId, SMeshError>(
            vs[next_index(k, vs.len() as int)],
        ),
        built.src_vertex(face_sides(existing, keys)[k].0) == Ok::<VertexId, SMeshError>(vs[k]),
        face_sides(existing, keys)[k].1 == (existing[k] is None),
        existing[k] is Some ==> face_sides(existing, keys)[k].0 == existing[k]->Some_0
            && g.halfedges.contains_key(existing[k]->Some_0),
        existing[k] is None ==> face_sides(existing, keys)[k].0 == keys[k].0,
{
    match existing[k] {
        Some(h) => {
            assert(g.halfedges.contains_key(h));
            let o = g.halfedges[h].opposite->Some_0;
            assert(g.sound_at(h));
            assert(g.halfedges.contains_key(o));
        },
        None => {
            assert(built.halfedges.contains_key(keys[k].0));
            assert(built.halfedges[keys[k].0] == bare_inner(vs, keys, k));
            assert(built.halfedges[keys[k].1] == bare_outer(vs, keys, k));
        },
    }
}

/// The corner after the `c`-th side lies between two sides that were found
/// and do not follow each other yet.
pub open spec fn linked_old(g: Graph, existing: Seq<Option<HalfedgeId>>, c: int) -> bool {
    existing[c] is Some && existing[next_index(c, existing.len() as int)] is Some && g.he_next(
        existing[c]->Some_0,
    ) != Ok::<HalfedgeId, SMeshError>(existing[next_index(c, existing.len() as int)]->Some_0)
}

/// The links that move a patch out of the way belong to their corner.
pub proof fn lemma_relink_group(
    g: Graph,
    built: Graph,
    vs: Seq<VertexId>,
    existing: Seq<Option<HalfedgeId>>,
    keys: Seq<(HalfedgeId, HalfedgeId)>,
    i: int,
)
    requires
        stage(g, built, vs, existing, keys),
        0 <= i < vs.len(),
        g.relink_corner(existing, i) is Ok,
    ensures
        linked_old(g, existing, i) <==> g.relink_corner(existing, i)->Ok_0.len() > 0,
        g.relink_corner(existing, i)->Ok_0.len() > 0 ==> g.relink_corner(existing, i)->Ok_0.last()
            == side_link(face_sides(existing, keys), i) && noted(
            g,
            face_sides(existing, keys),
            i,
        ),
        forall|j: int|
            0 <= j < g.relink_corner(existing, i)->Ok_0.len() ==> built.he_vertex(
                (#[trigger] g.relink_corner(existing, i)->Ok_0[j]).0,
            ) == Ok::<VertexId, SMeshError>(vs[next_index(i, vs.len() as int)]),
{
    let n = vs.len() as int;
    let ii = next_index(i, n);
    let v = vs[ii];
    lemma_sides_set(g, built, vs, existing, keys, i);
    lemma_sides_set(g, built, vs, existing, keys, ii);
    let links = g.relink_corner(existing, i)->Ok_0;
    if linked_old(g, existing, i) {
        let ip = existing[i]->Some_0;
        let inx = existing[ii]->Some_0;
        assert(links == g.relink(ip, inx)->Ok_0);
        let outer_prev = g.he_opposite(inx)->Ok_0;
        assert(g.sound_at(inx));
        assert(g.joined_at(inx));
        assert(g.he_vertex(outer_prev) == Ok::<VertexId, SMeshError>(v));
        g.lemma_find_gap_points(ip, outer_prev, v, g.n_halfedges);
        let boundary_prev = g.find_gap(ip, outer_prev, g.n_halfedges)->Ok_0;
        let patch_end = g.he_prev(inx)->Ok_0;
        assert(g.he_vertex(patch_end) == Ok::<VertexId, SMeshError>(v));
        assert(g.halfedges.contains_key(boundary_prev));
        assert(g.halfedges.contains_key(patch_end));
        assert(links.len() == 3);
        assert(links[0].0 == boundary_prev);
        assert(links[1].0 == patch_end);
        assert(links[2] == (ip, inx));
        assert(built.he_vertex(ip) == Ok::<VertexId, SMeshError>(v));
    }
}

impl Graph {
    /// The links that the scan of the corners notes are owned, and every
    /// corner between two found sides that do not follow each other has its
    /// link among them.
    pub proof fn lemma_relinks_owned(
        self,
        built: Graph,
        vs: Seq<VertexId>,
        existing: Seq<Option<HalfedgeId>>,
        keys: Seq<(HalfedgeId, HalfedgeId)>,
        i: int,
        acc: Seq<(HalfedgeId, HalfedgeId)>,
    )
        requires
            stage(self, built, vs, existing, keys),
            0 <= i <= vs.len(),
            owned(built, self, acc, vs, face_sides(existing, keys)),
            forall|c: int|
                0 <= c < i && #[trigger] linked_old(self, existing, c) ==> has_link(
                    acc,
                    face_sides(existing, keys),
                    c,
                ),
            self.scan_relinks(existing, i, acc) is Ok,
        ensures
            owned(
                built,
                self,
                self.scan_relinks(existing, i, acc)->Ok_0,
                vs,
                face_sides(existing, keys),
            ),
            forall|c: int|
                0 <= c < vs.len() && #[trigger] linked_old(self, existing, c) ==> has_link(
                    self.scan_relinks(existing, i, acc)->Ok_0,
                    face_sides(existing, keys),
                    c,
                ),
        decreases vs.len() - i,
    {
        if i < vs.len() {
            let links = self.relink_corner(existing, i)->Ok_0;
            lemma_relink_group(self, built, vs, existing, keys, i);
            lemma_group_owned(built, self, acc, links, vs, face_sides(existing, keys), i);
            assert forall|c: int| 0 <= c < i + 1 && #[trigger] linked_old(
                self,
                existing,
                c,
            ) implies has_link(acc + links, face_sides(existing, keys), c) by {}
            self.lemma_relinks_owned(built, vs, existing, keys, i + 1, acc + links);
        }
    }
}

/// Two records of a halfedge differ at most in the face.
pub open spec fn same_links(a: Halfedge, b: Halfedge) -> bool {
    a.vertex == b.vertex && a.opposite == b.opposite && a.prev == b.prev && a.next == b.next
}

/// The vertex `v` is the corner after one of the sides before the `i`-th.
pub open spec fn touched(vs: Seq<VertexId>, i: int, v: VertexId) -> bool {
    exists|c: int| 0 <= c < i && #[trigger] vs[next_index(c, vs.len() as int)] == v
}

/// The state while the corners are passed, before the corner after the
/// `i`-th side: nothing has failed, the halfedges are those of the stage up
/// to their faces, the corners that are still to come store what they
/// stored, every link is owned, and every corner that was passed and needs
/// links has its link noted.
pub open spec fn passing(
    g: Graph,
    built: Graph,
    st: LinkState,
    vs: Seq<VertexId>,
    existing: Seq<Option<HalfedgeId>>,
    keys: Seq<(HalfedgeId, HalfedgeId)>,
    i: int,
) -> bool {
    let sides = face_sides(existing, keys);
    &&& st.edit.err is None
    &&& st.edit.g.halfedges.dom() == built.halfedges.dom()
    &&& forall|h: HalfedgeId| #[trigger]
        built.halfedges.contains_key(h) ==> same_links(st.edit.g.halfedges[h], built.halfedges[h])
    &&& st.edit.g.vertices.dom() == built.vertices.dom()
    &&& forall|v: VertexId| #[trigger]
        built.vertices.contains_key(v) && !touched(vs, i, v) ==> st.edit.g.vertices[v]
            == built.vertices[v]
    &&& owned(built, g, st.cache, vs, sides)
    &&& forall|c: int|
        0 <= c < vs.len() && #[trigger] linked_old(g, existing, c) ==> has_link(st.cache, sides, c)
    &&& forall|c: int|
        0 <= c < i && (#[trigger] sides[c]).1 ==> has_link(st.cache, sides, c)
    &&& forall|c: int|
        0 <= c < i && (#[trigger] sides[next_index(c, vs.len() as int)]).1 ==> has_link(
            st.cache,
            sides,
            c,
        )
}

/// Passing one corner.
pub proof fn lemma_pass(
    g: Graph,
    built: Graph,
    st: LinkState,
    vs: Seq<VertexId>,
    existing: Seq<Option<HalfedgeId>>,
    keys: Seq<(HalfedgeId, HalfedgeId)>,
    f: FaceId,
    i: int,
)
    requires
        stage(g, built, vs, existing, keys),
        0 <= i < vs.len(),
        passing(g, built, st, vs, existing, keys, i),
        link_corner(st, vs, face_sides(existing, keys), f, i).edit.err is None,
    ensures
        passing(
            g,
            built,
            link_corner(st, vs, face_sides(existing, keys), f, i),
            vs,
            existing,
            keys,
            i + 1,
        ),
{
    let n = vs.len() as int;
    let sides = face_sides(existing, keys);
    let ii = next_index(i, n);
    let v = vs[ii];
    let ip = sides[i].0;
    let inx = sides[ii].0;
    let prev_new = sides[i].1;
    let next_new = sides[ii].1;
    let g2 = st.edit.g;
    lemma_sides_set(g, built, vs, existing, keys, i);
    lemma_sides_set(g, built, vs, existing, keys, ii);
    assert(built.halfedges.contains_key(ip) && built.halfedges.contains_key(inx));
    assert(same_links(g2.halfedges[ip], built.halfedges[ip]));
    assert(same_links(g2.halfedges[inx], built.halfedges[inx]));
    assert(g2.halfedges.contains_key(ip) && g2.halfedges.contains_key(inx));
    // the corner itself was not touched yet
    assert(!touched(vs, i, v)) by {
        if touched(vs, i, v) {
            let c = choose|c: int| 0 <= c < i && #[trigger] vs[next_index(c, n)] == v;
            assert(next_index(c, n) != ii);
        }
    }
    assert(built.vertices.contains_key(v)) by {
        assert(g.vertices.contains_key(v));
    }
    assert(g2.vertices[v] == g.vertices[v]);
    let after = link_corner(st, vs, sides, f, i);
    let group: Seq<(HalfedgeId, HalfedgeId)> = if prev_new || next_new {
        let outer_prev = g2.he_opposite(inx)->Ok_0;
        let outer_next = g2.he_opposite(ip)->Ok_0;
        if prev_new && !next_new {
            seq![(g2.he_prev(inx)->Ok_0, outer_next), (ip, inx)]
        } else if !prev_new && next_new {
            seq![(outer_prev, g2.he_next(ip)->Ok_0), (ip, inx)]
        } else {
            match g2.vertex_halfedge(v) {
                Ok(bn) => seq![(g2.he_prev(bn)->Ok_0, outer_next), (outer_prev, bn), (ip, inx)],
                Err(_) => seq![(outer_prev, outer_next), (ip, inx)],
            }
        }
    } else {
        Seq::empty()
    };
    assert(after.cache =~= st.cache + group);
    assert(after.edit.g.halfedges.dom() =~= g2.halfedges.dom());
    assert forall|h: HalfedgeId| #[trigger] built.halfedges.contains_key(h) implies same_links(
        after.edit.g.halfedges[h],
        built.halfedges[h],
    ) by {
        assert(same_links(g2.halfedges[h], built.halfedges[h]));
    }
    assert(after.edit.g.vertices.dom() =~= g2.vertices.dom());
    assert forall|w: VertexId| #[trigger]
        built.vertices.contains_key(w) && !touched(vs, i + 1, w) implies after.edit.g.vertices[w]
        == built.vertices[w] by {
        if touched(vs, i, w) {
            let c = choose|c: int| 0 <= c < i && #[trigger] vs[next_index(c, n)] == w;
            assert(0 <= c < i + 1 && vs[next_index(c, n)] == w);
        }
        if w == v {
            assert(0 <= i < i + 1 && vs[next_index(i, n)] == w);
        }
    }
    // the sources of the new links end at the corner
    assert forall|j: int| 0 <= j < group.len() implies built.he_vertex((#[trigger] group[j]).0)
        == Ok::<VertexId, SMeshError>(v) by {
        if prev_new || next_new {
            let outer_prev = g2.he_opposite(inx)->Ok_0;
            assert(built.he_vertex(outer_prev) == Ok::<VertexId, SMeshError>(v));
            if prev_new && !next_new {
                let bp = g2.he_prev(inx)->Ok_0;
                assert(g.halfedges.contains_key(inx));
                assert(g.sound_at(inx));
                assert(g.joined_at(inx));
                assert(g.halfedges.contains_key(bp));
            } else if !prev_new && next_new {
            } else {
                match g2.vertex_halfedge(v) {
                    Ok(bn) => {
                        assert(g.spoke_at(v));
                        assert(g.halfedges.contains_key(bn));
                        assert(same_links(g2.halfedges[bn], built.halfedges[bn]));
                        let bp = g2.he_prev(bn)->Ok_0;
                        assert(g.sound_at(bn));
                        assert(g.joined_at(bn));
                        assert(g.halfedges.contains_key(bp));
                    },
                    Err(_) => {},
                }
            }
        }
    }
    if group.len() > 0 {
        assert(group.last() == side_link(sides, i));
        assert(noted(g, sides, i));
    }
    lemma_group_owned(built, g, st.cache, group, vs, sides, i);
}

/// Passing the corners from the `i`-th on.
pub proof fn lemma_pass_all(
    g: Graph,
    built: Graph,
    st: LinkState,
    vs: Seq<VertexId>,
    existing: Seq<Option<HalfedgeId>>,
    keys: Seq<(HalfedgeId, HalfedgeId)>,
    f: FaceId,
    i: int,
)
    requires
        stage(g, built, vs, existing, keys),
        0 <= i <= vs.len(),
        passing(g, built, st, vs, existing, keys, i),
        link_corners(st, vs, face_sides(existing, keys), f, i).edit.err is None,
    ensures
        passing(
            g,
            built,
            link_corners(st, vs, face_sides(existing, keys), f, i),
            vs,
            existing,
            keys,
            vs.len() as int,
        ),
    decreases vs.len() - i,
{
    if i < vs.len() {
        let linked = link_corner(st, vs, face_sides(existing, keys), f, i);
        if linked.edit.err is None {
            lemma_pass(g, built, st, vs, existing, keys, f, i);
            lemma_pass_all(g, built, linked, vs, existing, keys, f, i + 1);
        }
    }
}

/// Once the corners are passed and the links are made, each side leads
/// into the side after it.
pub proof fn lemma_side_leads_on(
    g: Graph,
    built: Graph,
    st: LinkState,
    vs: Seq<VertexId>,
    existing: Seq<Option<HalfedgeId>>,
    keys: Seq<(HalfedgeId, HalfedgeId)>,
    c: int,
)
    requires
        stage(g, built, vs, existing, keys),
        passing(g, built, st, vs, existing, keys, vs.len() as int),
        st.edit.apply_links(st.cache, 0).err is None,
        0 <= c < vs.len(),
    ensures
        st.edit.apply_links(st.cache, 0).g.halfedges.contains_key(face_sides(existing, keys)[c].0),
        st.edit.apply_links(st.cache, 0).g.halfedges[face_sides(existing, keys)[c].0].next == Some(
            face_sides(existing, keys)[next_index(c, vs.len() as int)].0,
        ),
        st.edit.apply_links(st.cache, 0).g.halfedges[face_sides(existing, keys)[c].0].vertex
            == vs[next_index(c, vs.len() as int)],
{
    let n = vs.len() as int;
    let sides = face_sides(existing, keys);
    let cc = next_index(c, n);
    let h = sides[c].0;
    let b = sides[cc].0;
    let cache = st.cache;
    lemma_sides_set(g, built, vs, existing, keys, c);
    lemma_sides_set(g, built, vs, existing, keys, cc);
    assert(built.halfedges.contains_key(h));
    assert(same_links(st.edit.g.halfedges[h], built.halfedges[h]));
    assert(st.edit.g.halfedges.contains_key(h));
    assert forall|j: int|
        #![trigger cache[j]]
        0 <= j < cache.len() && cache[j].0 == h implies exists|j2: int| #[trigger]
        later_at(cache, j, j2, (h, b)) by {
        assert(owned_at(built, g, cache, vs, sides, j));
        let c0 = choose|c0: int| #[trigger] owns(built, g, cache, vs, sides, j, c0);
        assert(vs[next_index(c0, n)] == vs[cc]);
        assert(next_index(c0, n) == cc);
        assert(c0 == c);
        let j2 = choose|j2: int| #[trigger] later_at(cache, j, j2, side_link(sides, c));
        assert(later_at(cache, j, j2, (h, b)));
    }
    lemma_last_target(cache, h, b, 0);
    lemma_last_link_wins(st.edit, cache, 0, h);
    if noted(g, sides, c) {
        if sides[c].1 {
            assert(has_link(cache, sides, c));
        } else if sides[cc].1 {
            assert(has_link(cache, sides, c));
        } else {
            assert(linked_old(g, existing, c));
            assert(has_link(cache, sides, c));
        }
        let j = choose|j: int| #[trigger] later_at(cache, 0, j, side_link(sides, c));
        assert(later_at(cache, 0, j, (h, b)));
    } else {
        assert(g.halfedges.contains_key(h));
        assert(built.halfedges[h] == g.halfedges[h]);
        assert(st.edit.g.halfedges[h].next == Some(b));
    }
}

impl Graph {
    /// The ring of a new face. In a graph in order a face that is
    /// constructed over different vertices has exactly those vertices as its
    /// corners, in their order, whether its sides were there before or not:
    /// the loop of the face runs over its sides, each from its corner to the
    /// next, and closes after as many steps as vertices were given.
    pub proof fn law_face_ring(self, vs: Seq<VertexId>, after: Graph, r: SMeshResult<FaceId>)
        requires
            self.in_order(),
            vs.no_duplicates(),
            self.made_face(vs, after, r),
            r is Ok,
        ensures
            after.face_vertices(r->Ok_0) == vs,
            after.face_valence(r->Ok_0) == vs.len(),
            after.face_halfedges(r->Ok_0).len() == vs.len(),
            forall|k: int|
                0 <= k < vs.len() ==> after.he_next(#[trigger] after.face_halfedges(r->Ok_0)[k])
                    == Ok::<HalfedgeId, SMeshError>(
                    after.face_halfedges(r->Ok_0)[next_index(k, vs.len() as int)],
                ) && after.he_vertex(after.face_halfedges(r->Ok_0)[k]) == Ok::<VertexId, SMeshError>(
                    vs[k],
                ),
    {
        let plan = self.face_plan(vs)->Ok_0;
        let (keys, f) = choose|keys: Seq<(HalfedgeId, HalfedgeId)>, f: FaceId| #[trigger]
            self.face_built(vs, plan, keys, f, after, r);
        let n = vs.len() as int;
        let existing = plan.existing;
        let sides = face_sides(existing, keys);
        assert(sides_run(self, vs, Seq::<Option<HalfedgeId>>::empty(), 0));
        self.lemma_scan_sides_run(vs, 0, Seq::empty());
        lemma_sides_built(Edit::of(self), vs, existing, keys, 0);
        let e1 = Edit::of(self).create_sides(vs, existing, keys, 0);
        let e2 = e1.add_face_record(f, Some(sides[n - 1].0));
        let built = e2.g;
        assert(stage(self, built, vs, existing, keys));
        assert(owned(built, self, Seq::<(HalfedgeId, HalfedgeId)>::empty(), vs, sides)) by {
            assert forall|j: int| #[trigger]
                owned_at(
                    built,
                    self,
                    Seq::<(HalfedgeId, HalfedgeId)>::empty(),
                    vs,
                    sides,
                    j,
                ) by {}
        }
        self.lemma_relinks_owned(built, vs, existing, keys, 0, Seq::empty());
        let st0 = LinkState { edit: e2, cache: plan.relinks, adjust: Seq::empty() };
        assert(passing(self, built, st0, vs, existing, keys, 0));
        let st = link_corners(st0, vs, sides, f, 0);
        let e3 = st.edit.apply_links(st.cache, 0);
        let e4 = e3.adjust_all(st.adjust, 0);
        assert(self.build_face(vs, plan, keys, f) == e4);
        assert(e4.err is None && e4.g == after);
        assert(st.edit.err is None) by {
            if st.edit.err is Some {
                assert(e3.err is Some) by {
                    if st.cache.len() > 0 {
                        assert(st.edit.set_next(st.cache[0].0, Some(st.cache[0].1)).err is Some);
                    }
                }
                assert(e4.err is Some) by {
                    if st.adjust.len() > 0 {
                        assert(e3.adjust_outgoing_halfedge(st.adjust[0]).err is Some);
                    }
                }
            }
        }
        assert(e3.err is None) by {
            if e3.err is Some {
                if st.adjust.len() > 0 {
                    assert(e3.adjust_outgoing_halfedge(st.adjust[0]).err is Some);
                }
            }
        }
        lemma_pass_all(self, built, st0, vs, existing, keys, f, 0);
        lemma_link_corners_keep_faces(st0, vs, sides, f, 0);
        lemma_adjust_all_keeps_halfedges(e3, st.adjust, 0);
        assert(st.edit.g.halfedges.contains_key(sides[0].0)) by {
            lemma_sides_set(self, built, vs, existing, keys, 0);
        }
        lemma_last_link_wins(st.edit, st.cache, 0, sides[0].0);
        let c = Seq::new(vs.len(), |j: int| sides[prev_index(j, n)].0);
        assert forall|k: int| 0 <= k < n implies after.halfedges.contains_key(#[trigger] c[k])
            && after.halfedges[c[k]].next == Some(c[next_index(k, n)]) && after.halfedges[c[k]].vertex
            == vs[k] by {
            let p = prev_index(k, n);
            lemma_side_leads_on(self, built, st, vs, existing, keys, p);
            assert(next_index(p, n) == k);
            assert(prev_index(next_index(k, n), n) == k);
        }
        assert(after.faces == self.faces.insert(
            f,
            crate::mesh_elements::Face { halfedge: Some(sides[n - 1].0) },
        ));
        assert(after.face_halfedge(f) == Ok::<HalfedgeId, SMeshError>(c[0]));
        assert forall|k: int| 0 <= k < c.len() implies after.he_next(#[trigger] c[k]) == Ok::<
            HalfedgeId,
            SMeshError,
        >(c[next_index(k, c.len() as int)]) by {}
        assert forall|k: int, l: int| 0 <= k < l < c.len() implies c[k] != c[l] by {
            assert(after.halfedges[c[k]].vertex == vs[k]);
            assert(after.halfedges[c[l]].vertex == vs[l]);
        }
        assert(c.no_duplicates());
        c.unique_seq_to_set();
        assert(after.halfedges.dom() == built.halfedges.dom());
        assert(after.n_halfedges == built.n_halfedges);
        assert(built.halfedges_counted());
        assert(c.to_set().subset_of(after.halfedges.dom())) by {
            assert forall|y: HalfedgeId| c.to_set().contains(y) implies after.halfedges.dom().contains(
                y,
            ) by {
                let k = choose|k: int| 0 <= k < c.len() && c[k] == y;
                assert(after.halfedges.contains_key(c[k]));
            }
        }
        vstd::set_lib::lemma_len_subset(c.to_set(), after.halfedges.dom());
        lemma_loop_walk(after, c, 0, after.n_halfedges);
        assert(c.skip(0) =~= c);
        assert(after.halfedges.contains_key(c[0]));
        assert(after.orbit(crate::graph::Turn::Next, c[0]) == c);
        lemma_targets_of_live(after, c);
        assert(Seq::new(c.len(), |k: int| after.halfedges[c[k]].vertex) =~= vs);
    }
}

} // verus!
