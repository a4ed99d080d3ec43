use vstd::prelude::*;
use crate::edit::Edit;
use crate::error::{SMeshError, SMeshResult};
use crate::face_plan::{face_sides, link_corner, link_corners, next_index, LinkState};
use crate::attribute::Point3;
use crate::edit_operations::{extrusion_polygons, last_face, wall};
use crate::graph::Graph;
use crate::world::{fresh_vertices, World};
use crate::mesh_elements::{FaceId, Halfedge, HalfedgeId, Vertex, VertexId};
use crate::shared_sides::touched;
use crate::topological_operations::ok_of;
use crate::shared_sides::{
    last_target, lemma_pass, lemma_relink_group, lemma_sides_built, lemma_sides_set, linked_old,
    owned, owned_at, passing, same_links, sides_run, stage,
};

verus! {

/// Making links one after another is making the first ones and then the
/// rest.
pub proof fn lemma_links_in_turn(
    e: Edit,
    first: Seq<(HalfedgeId, HalfedgeId)>,
    rest: Seq<(HalfedgeId, HalfedgeId)>,
    k: int,
)
    requires
        0 <= k <= first.len(),
    ensures
        e.apply_links(first + rest, k) == (if e.apply_links(first, k).err is Some {
            e.apply_links(first, k)
        } else {
            e.apply_links(first, k).apply_links(rest, 0)
        }),
    decreases first.len() - k,
{
    let all = first + rest;
    if k < first.len() {
        assert(all[k] == first[k]);
        let linked = e.set_next(first[k].0, Some(first[k].1));
        if linked.err is None {
            lemma_links_in_turn(linked, first, rest, k + 1);
        }
    } else {
        assert(e.apply_links(first, k) == e);
        lemma_links_shifted(e, first, rest, 0);
    }
}

/// The links after the first ones are the rest.
pub proof fn lemma_links_shifted(
    e: Edit,
    first: Seq<(HalfedgeId, HalfedgeId)>,
    rest: Seq<(HalfedgeId, HalfedgeId)>,
    k: int,
)
    requires
        0 <= k <= rest.len(),
    ensures
        e.apply_links(first + rest, first.len() + k) == e.apply_links(rest, k),
    decreases rest.len() - k,
{
    let all = first + rest;
    if k < rest.len() {
        assert(all[first.len() + k] == rest[k]);
        let linked = e.set_next(rest[k].0, Some(rest[k].1));
        if linked.err is None {
            lemma_links_shifted(linked, first, rest, k + 1);
        }
    }
}

/// From where the last link from the `k`-th on that leads to `h` starts.
pub open spec fn last_source(cache: Seq<(HalfedgeId, HalfedgeId)>, h: HalfedgeId, k: int) -> Option<
    HalfedgeId,
>
    decreases cache.len() - k,
{
    if k < 0 || k >= cache.len() {
        None
    } else {
        match last_source(cache, h, k + 1) {
            Some(a) => Some(a),
            None => if cache[k].1 == h {
                Some(cache[k].0)
            } else {
                None
            },
        }
    }
}

/// What the links from the `k`-th on make of the halfedges, where both ends
/// of every link are live: nothing fails; no halfedge comes or goes; each
/// halfedge keeps its vertex, its opposite and its face; it leads where the
/// last link that starts at it says, and is led into from where the last
/// link that leads to it starts, or both are as they were.
pub proof fn lemma_links_made(e: Edit, cache: Seq<(HalfedgeId, HalfedgeId)>, k: int)
    requires
        e.err is None,
        0 <= k <= cache.len(),
        forall|j: int|
            k <= j < cache.len() ==> e.g.halfedges.contains_key((#[trigger] cache[j]).0)
                && e.g.halfedges.contains_key(cache[j].1),
    ensures
        e.apply_links(cache, k).err is None,
        e.apply_links(cache, k).g.halfedges.dom() == e.g.halfedges.dom(),
        e.apply_links(cache, k).g.vertices == e.g.vertices,
        e.apply_links(cache, k).g.faces == e.g.faces,
        e.apply_links(cache, k).g.n_halfedges == e.g.n_halfedges,
        forall|h: HalfedgeId| #[trigger]
            e.g.halfedges.contains_key(h) ==> e.apply_links(cache, k).g.halfedges[h] == (Halfedge {
                next: match last_target(cache, h, k) {
                    Some(b) => Some(b),
                    None => e.g.halfedges[h].next,
                },
                prev: match last_source(cache, h, k) {
                    Some(a) => Some(a),
                    None => e.g.halfedges[h].prev,
                },
                ..e.g.halfedges[h]
            }),
    decreases cache.len() - k,
{
    if k < cache.len() {
        let a = cache[k].0;
        let b = cache[k].1;
        let linked = e.set_next(a, Some(b));
        assert(linked.err is None);
        assert(linked.g.halfedges.dom() =~= e.g.halfedges.dom());
        lemma_links_made(linked, cache, k + 1);
        let r = e.apply_links(cache, k);
        assert(r == linked.apply_links(cache, k + 1));
        assert forall|h: HalfedgeId| #[trigger] e.g.halfedges.contains_key(h) implies r.g.halfedges[h]
            == (Halfedge {
            next: match last_target(cache, h, k) {
                Some(b) => Some(b),
                None => e.g.halfedges[h].next,
            },
            prev: match last_source(cache, h, k) {
                Some(a) => Some(a),
                None => e.g.halfedges[h].prev,
            },
            ..e.g.halfedges[h]
        }) by {
            assert(linked.g.halfedges.contains_key(h));
        }
    }
}

impl Graph {
    /// The halfedge `h`, if it is live, and the halfedges that it names as
    /// its next and its previous one agree: each is live and names `h` back.
    pub open spec fn threaded_at(self, h: HalfedgeId) -> bool {
        self.halfedges.contains_key(h) ==> {
            &&& (match self.halfedges[h].next {
                Some(n) => self.halfedges.contains_key(n) && self.halfedges[n].prev == Some(h),
                None => true,
            })
            &&& (match self.halfedges[h].prev {
                Some(p) => self.halfedges.contains_key(p) && self.halfedges[p].next == Some(h),
                None => true,
            })
        }
    }
}

/// The last link that starts at `h`, if any does, is one of the links.
pub proof fn lemma_last_target_is_link(cache: Seq<(HalfedgeId, HalfedgeId)>, h: HalfedgeId, k: int)
    requires
        0 <= k <= cache.len(),
    ensures
        last_target(cache, h, k) is Some <==> exists|j: int|
            k <= j < cache.len() && (#[trigger] cache[j]).0 == h,
        last_target(cache, h, k) is Some ==> exists|j: int|
            k <= j < cache.len() && #[trigger] cache[j] == (h, last_target(cache, h, k)->Some_0),
    decreases cache.len() - k,
{
    if k < cache.len() {
        lemma_last_target_is_link(cache, h, k + 1);
        if last_target(cache, h, k + 1) is Some {
            let j = choose|j: int|
                k + 1 <= j < cache.len() && #[trigger] cache[j] == (
                    h,
                    last_target(cache, h, k + 1)->Some_0,
                );
            assert(k <= j < cache.len() && cache[j].0 == h);
            assert(cache[j] == (h, last_target(cache, h, k)->Some_0));
        } else if cache[k].0 == h {
            assert(cache[k] == (h, last_target(cache, h, k)->Some_0));
        } else {
            if exists|j: int| k <= j < cache.len() && (#[trigger] cache[j]).0 == h {
                let j = choose|j: int| k <= j < cache.len() && (#[trigger] cache[j]).0 == h;
                assert(k + 1 <= j < cache.len() && cache[j].0 == h);
            }
        }
    }
}

/// The last link that leads to `h`, if any does, is one of the links.
pub proof fn lemma_last_source_is_link(cache: Seq<(HalfedgeId, HalfedgeId)>, h: HalfedgeId, k: int)
    requires
        0 <= k <= cache.len(),
    ensures
        last_source(cache, h, k) is Some <==> exists|j: int|
            k <= j < cache.len() && (#[trigger] cache[j]).1 == h,
        last_source(cache, h, k) is Some ==> exists|j: int|
            k <= j < cache.len() && #[trigger] cache[j] == (last_source(cache, h, k)->Some_0, h),
    decreases cache.len() - k,
{
    if k < cache.len() {
        lemma_last_source_is_link(cache, h, k + 1);
        if last_source(cache, h, k + 1) is Some {
            let j = choose|j: int|
                k + 1 <= j < cache.len() && #[trigger] cache[j] == (
                    last_source(cache, h, k + 1)->Some_0,
                    h,
                );
            assert(k <= j < cache.len() && cache[j].1 == h);
            assert(cache[j] == (last_source(cache, h, k)->Some_0, h));
        } else if cache[k].1 == h {
            assert(cache[k] == (last_source(cache, h, k)->Some_0, h));
        } else {
            if exists|j: int| k <= j < cache.len() && (#[trigger] cache[j]).1 == h {
                let j = choose|j: int| k <= j < cache.len() && (#[trigger] cache[j]).1 == h;
                assert(k + 1 <= j < cache.len() && cache[j].1 == h);
            }
        }
    }
}

/// The vertex `v` is the corner after one of the sides that are done.
pub open spec fn at_done(vs: Seq<VertexId>, done: Set<int>, v: VertexId) -> bool {
    exists|c: int|
        done.contains(c) && 0 <= c < vs.len() && #[trigger] vs[next_index(c, vs.len() as int)] == v
}

/// What holds of a halfedge `h` of the graph `x`, which is the graph `built`
/// with the links of the corners that are done: it has the vertex and the
/// opposite that it had; it leads elsewhere than in `built` only if it ends at
/// a corner that is done, and is led into from elsewhere only if it leaves
/// one; the halfedge before it ends where it starts; and it has lost no
/// link.
pub open spec fn wired_at(
    built: Graph,
    x: Graph,
    vs: Seq<VertexId>,
    done: Set<int>,
    h: HalfedgeId,
) -> bool {
    built.halfedges.contains_key(h) ==> {
        &&& x.halfedges[h].vertex == built.halfedges[h].vertex
        &&& x.halfedges[h].opposite == built.halfedges[h].opposite
        &&& (x.halfedges[h].next != built.halfedges[h].next ==> at_done(
            vs,
            done,
            built.halfedges[h].vertex,
        ))
        &&& (x.halfedges[h].prev != built.halfedges[h].prev ==> (match built.src_vertex(h) {
            Ok(s) => at_done(vs, done, s),
            Err(_) => false,
        }))
        &&& (match x.halfedges[h].prev {
            Some(p) => built.he_vertex(p) == built.src_vertex(h),
            None => true,
        })
        &&& (built.halfedges[h].next is Some ==> x.halfedges[h].next is Some)
        &&& (built.halfedges[h].prev is Some ==> x.halfedges[h].prev is Some)
    }
}

/// The graph `x` is the graph `built` with the links of the corners that
/// are done: it has the same halfedges, each of them is wired, and they are
/// threaded.
pub open spec fn wired(built: Graph, x: Graph, vs: Seq<VertexId>, done: Set<int>) -> bool {
    &&& x.halfedges.dom() == built.halfedges.dom()
    &&& forall|h: HalfedgeId| #[trigger] wired_at(built, x, vs, done, h)
    &&& forall|h: HalfedgeId| #[trigger] x.threaded_at(h)
}

/// The links rewire the halfedges at the vertex `v`: each starts at a
/// halfedge that ends at `v` and leads to one that leaves `v`; where a
/// halfedge at which a link starts led before, a link leads now, and from
/// where a halfedge to which a link leads was led into, a link starts now;
/// and the last links agree with each other.
pub open spec fn rewires(built: Graph, group: Seq<(HalfedgeId, HalfedgeId)>, v: VertexId) -> bool {
    &&& forall|j: int|
        0 <= j < group.len() ==> built.halfedges.contains_key((#[trigger] group[j]).0)
            && built.halfedges.contains_key(group[j].1) && built.he_vertex(group[j].0) == Ok::<
            VertexId,
            SMeshError,
        >(v) && built.src_vertex(group[j].1) == Ok::<VertexId, SMeshError>(v)
    &&& forall|j: int|
        0 <= j < group.len() ==> (match built.halfedges[(#[trigger] group[j]).0].next {
            Some(n) => last_source(group, n, 0) is Some,
            None => true,
        })
    &&& forall|j: int|
        0 <= j < group.len() ==> (match built.halfedges[(#[trigger] group[j]).1].prev {
            Some(p) => last_target(group, p, 0) is Some,
            None => true,
        })
    &&& forall|j: int|
        0 <= j < group.len() ==> last_source(
            group,
            last_target(group, (#[trigger] group[j]).0, 0)->Some_0,
            0,
        ) == Some(group[j].0)
    &&& forall|j: int|
        0 <= j < group.len() ==> last_target(
            group,
            last_source(group, (#[trigger] group[j]).1, 0)->Some_0,
            0,
        ) == Some(group[j].1)
}

/// Links that rewire the halfedges at a corner that is not done keep the
/// graph wired.
pub proof fn lemma_group_wired(
    built: Graph,
    x: Graph,
    vs: Seq<VertexId>,
    done: Set<int>,
    i: int,
    group: Seq<(HalfedgeId, HalfedgeId)>,
)
    requires
        wired(built, x, vs, done),
        vs.no_duplicates(),
        0 <= i < vs.len(),
        !done.contains(i),
        rewires(built, group, vs[next_index(i, vs.len() as int)]),
    ensures
        Edit::of(x).apply_links(group, 0).err is None,
        wired(built, Edit::of(x).apply_links(group, 0).g, vs, done.insert(i)),
        forall|j: int|
            0 <= j < group.len() ==> Edit::of(x).apply_links(group, 0).g.halfedges[(
            #[trigger] group[j]).0].next is Some && Edit::of(x).apply_links(
                group,
                0,
            ).g.halfedges[group[j].1].prev is Some,
        forall|h: HalfedgeId| #[trigger]
            x.halfedges.contains_key(h) ==> (x.halfedges[h].next is Some ==> Edit::of(x).apply_links(
                group,
                0,
            ).g.halfedges[h].next is Some) && (x.halfedges[h].prev is Some ==> Edit::of(
                x,
            ).apply_links(group, 0).g.halfedges[h].prev is Some),
        Edit::of(x).apply_links(group, 0).g.vertices == x.vertices,
        Edit::of(x).apply_links(group, 0).g.faces == x.faces,
        Edit::of(x).apply_links(group, 0).g.n_halfedges == x.n_halfedges,
{
    let n = vs.len() as int;
    let v = vs[next_index(i, n)];
    let y = Edit::of(x).apply_links(group, 0).g;
    let more = done.insert(i);
    lemma_links_made(Edit::of(x), group, 0);
    // a corner that is done is another corner
    assert(!at_done(vs, done, v)) by {
        if at_done(vs, done, v) {
            let c = choose|c: int|
                done.contains(c) && 0 <= c < vs.len() && #[trigger] vs[next_index(c, n)] == v;
            assert(next_index(c, n) == next_index(i, n));
        }
    }
    assert forall|w: VertexId| at_done(vs, done, w) implies at_done(vs, more, w) by {
        let c = choose|c: int|
            done.contains(c) && 0 <= c < vs.len() && #[trigger] vs[next_index(c, n)] == w;
        assert(more.contains(c) && 0 <= c < vs.len() && vs[next_index(c, n)] == w);
    }
    assert(at_done(vs, more, v)) by {
        assert(more.contains(i) && 0 <= i < vs.len() && vs[next_index(i, n)] == v);
    }
    assert forall|h: HalfedgeId| #[trigger] y.threaded_at(h) by {
        if y.halfedges.contains_key(h) {
            assert(built.halfedges.contains_key(h));
            assert(x.threaded_at(h));
            assert(wired_at(built, x, vs, done, h));
            lemma_last_target_is_link(group, h, 0);
            lemma_last_source_is_link(group, h, 0);
            match y.halfedges[h].next {
                Some(went) => {
                    lemma_last_source_is_link(group, went, 0);
                    if last_target(group, h, 0) is Some {
                        let j = choose|j: int|
                            0 <= j < group.len() && #[trigger] group[j] == (
                                h,
                                last_target(group, h, 0)->Some_0,
                            );
                        assert(group[j].0 == h);
                        assert(built.halfedges.contains_key(group[j].1));
                    } else {
                        assert(x.halfedges[h].next == Some(went));
                        assert(x.halfedges[went].prev == Some(h));
                        assert(built.halfedges.contains_key(went));
                        assert(wired_at(built, x, vs, done, went));
                        if last_source(group, went, 0) is Some {
                            let j = choose|j: int|
                                0 <= j < group.len() && (#[trigger] group[j]).1 == went;
                            assert(built.src_vertex(went) == Ok::<VertexId, SMeshError>(v));
                            assert(x.halfedges[went].prev == built.halfedges[went].prev);
                            lemma_last_target_is_link(group, h, 0);
                        }
                    }
                },
                None => {},
            }
            match y.halfedges[h].prev {
                Some(came) => {
                    lemma_last_target_is_link(group, came, 0);
                    if last_source(group, h, 0) is Some {
                        let j = choose|j: int|
                            0 <= j < group.len() && #[trigger] group[j] == (
                                last_source(group, h, 0)->Some_0,
                                h,
                            );
                        assert(group[j].1 == h);
                        assert(built.halfedges.contains_key(group[j].0));
                    } else {
                        assert(x.halfedges[h].prev == Some(came));
                        assert(x.halfedges[came].next == Some(h));
                        assert(built.halfedges.contains_key(came));
                        assert(wired_at(built, x, vs, done, came));
                        if last_target(group, came, 0) is Some {
                            let j = choose|j: int|
                                0 <= j < group.len() && (#[trigger] group[j]).0 == came;
                            assert(built.he_vertex(came) == Ok::<VertexId, SMeshError>(v));
                            assert(x.halfedges[came].next == built.halfedges[came].next);
                        }
                    }
                },
                None => {},
            }
        }
    }
    assert forall|h: HalfedgeId| #[trigger] wired_at(built, y, vs, more, h) by {
        if built.halfedges.contains_key(h) {
            assert(wired_at(built, x, vs, done, h));
            lemma_last_target_is_link(group, h, 0);
            lemma_last_source_is_link(group, h, 0);
            if last_target(group, h, 0) is Some {
                let j = choose|j: int| 0 <= j < group.len() && (#[trigger] group[j]).0 == h;
                assert(built.he_vertex(h) == Ok::<VertexId, SMeshError>(v));
            }
            if last_source(group, h, 0) is Some {
                let j = choose|j: int|
                    0 <= j < group.len() && #[trigger] group[j] == (
                        last_source(group, h, 0)->Some_0,
                        h,
                    );
                assert(group[j].1 == h && group[j].0 == last_source(group, h, 0)->Some_0);
                assert(built.src_vertex(h) == Ok::<VertexId, SMeshError>(v));
            }
        }
    }
    assert forall|h: HalfedgeId| #[trigger] x.halfedges.contains_key(h) implies (
    x.halfedges[h].next is Some ==> y.halfedges[h].next is Some) && (x.halfedges[h].prev is Some
        ==> y.halfedges[h].prev is Some) by {}
    assert forall|j: int| 0 <= j < group.len() implies y.halfedges[(#[trigger] group[j]).0].next
        is Some && y.halfedges[group[j].1].prev is Some by {
        lemma_last_target_is_link(group, group[j].0, 0);
        lemma_last_source_is_link(group, group[j].1, 0);
    }
}

/// On the stage the graph in which the sides were made is wired, with no
/// corner done.
pub proof fn lemma_built_wired(
    g: Graph,
    built: Graph,
    vs: Seq<VertexId>,
    existing: Seq<Option<HalfedgeId>>,
    keys: Seq<(HalfedgeId, HalfedgeId)>,
)
    requires
        stage(g, built, vs, existing, keys),
        forall|h: HalfedgeId| #[trigger]
            built.halfedges.contains_key(h) ==> g.halfedges.contains_key(h) || exists|k: int|
                0 <= k < vs.len() && existing[k] is None && (h == (#[trigger] keys[k]).0 || h
                    == keys[k].1),
    ensures
        wired(built, built, vs, Set::<int>::empty()),
{
    assert forall|h: HalfedgeId| #[trigger]
        wired_at(built, built, vs, Set::<int>::empty(), h) by {
        lemma_built_threaded(g, built, vs, existing, keys, h);
    }
    assert forall|h: HalfedgeId| #[trigger] built.threaded_at(h) by {
        lemma_built_threaded(g, built, vs, existing, keys, h);
    }
}

/// A halfedge of the graph in which the sides were made is threaded and
/// joined.
proof fn lemma_built_threaded(
    g: Graph,
    built: Graph,
    vs: Seq<VertexId>,
    existing: Seq<Option<HalfedgeId>>,
    keys: Seq<(HalfedgeId, HalfedgeId)>,
    h: HalfedgeId,
)
    requires
        stage(g, built, vs, existing, keys),
        built.halfedges.contains_key(h) ==> g.halfedges.contains_key(h) || exists|k: int|
            0 <= k < vs.len() && existing[k] is None && (h == (#[trigger] keys[k]).0 || h
                == keys[k].1),
    ensures
        built.threaded_at(h),
        built.halfedges.contains_key(h) ==> (match built.halfedges[h].prev {
            Some(p) => built.he_vertex(p) == built.src_vertex(h),
            None => true,
        }),
{
    {
        if built.halfedges.contains_key(h) {
            if g.halfedges.contains_key(h) {
                assert(g.sound_at(h));
                assert(g.whole_at(h));
                assert(g.joined_at(h));
                let o = g.halfedges[h].opposite->Some_0;
                let p = g.halfedges[h].prev->Some_0;
                let x = g.halfedges[h].next->Some_0;
                assert(g.halfedges.contains_key(o) && g.halfedges.contains_key(p)
                    && g.halfedges.contains_key(x));
                assert(built.halfedges[h] == g.halfedges[h]);
            } else {
                let k = choose|k: int|
                    0 <= k < vs.len() && existing[k] is None && (h == (#[trigger] keys[k]).0 || h
                        == keys[k].1);
                assert(built.halfedges.contains_key(keys[k].0));
            }
        }
    }
}

/// The links that move a patch out of the way rewire the halfedges at
/// their corner.
pub proof fn lemma_relink_rewires(
    g: Graph,
    built: Graph,
    vs: Seq<VertexId>,
    existing: Seq<Option<HalfedgeId>>,
    keys: Seq<(HalfedgeId, HalfedgeId)>,
    i: int,
)
    requires
        stage(g, built, vs, existing, keys),
        0 <= i < vs.len(),
        g.relink_corner(existing, i) is Ok,
    ensures
        rewires(built, g.relink_corner(existing, i)->Ok_0, vs[next_index(i, vs.len() as int)]),
{
    let n = vs.len() as int;
    let ii = next_index(i, n);
    let v = vs[ii];
    lemma_sides_set(g, built, vs, existing, keys, i);
    lemma_sides_set(g, built, vs, existing, keys, ii);
    let links = g.relink_corner(existing, i)->Ok_0;
    reveal_with_fuel(last_target, 5);
    reveal_with_fuel(last_source, 5);
    if linked_old(g, existing, i) {
        let ip = existing[i]->Some_0;
        let inx = existing[ii]->Some_0;
        assert(links == g.relink(ip, inx)->Ok_0);
        let outer_prev = g.he_opposite(inx)->Ok_0;
        assert(g.sound_at(inx) && g.whole_at(inx) && g.joined_at(inx));
        assert(g.sound_at(ip) && g.whole_at(ip));
        assert(g.he_vertex(outer_prev) == Ok::<VertexId, SMeshError>(v));
        g.lemma_find_gap_points(ip, outer_prev, v, g.n_halfedges);
        let bp = g.find_gap(ip, outer_prev, g.n_halfedges)->Ok_0;
        let bn = g.he_next(bp)->Ok_0;
        let ps = g.he_next(ip)->Ok_0;
        let pe = g.he_prev(inx)->Ok_0;
        assert(g.halfedges.contains_key(bp));
        assert(g.sound_at(bp) && g.whole_at(bp));
        assert(g.halfedges.contains_key(bn) && g.halfedges.contains_key(ps)
            && g.halfedges.contains_key(pe));
        assert(g.sound_at(bn) && g.whole_at(bn) && g.joined_at(bn));
        assert(g.sound_at(ps) && g.whole_at(ps) && g.joined_at(ps));
        assert(g.sound_at(pe) && g.whole_at(pe));
        assert(g.halfedges.contains_key(g.halfedges[bn].opposite->Some_0));
        assert(g.halfedges.contains_key(g.halfedges[ps].opposite->Some_0));
        assert(links =~= seq![(bp, ps), (pe, bn), (ip, inx)]);
        assert(g.halfedges[pe].next == Some(inx));
        assert(g.halfedges[ps].prev == Some(ip));
        assert(g.halfedges[bn].prev == Some(bp));
        assert(bn != inx && ps != inx);
        assert(pe != ip && pe != bp);
        assert(bp == ip <==> bn == ps);
        assert(built.halfedges[bp] == g.halfedges[bp]);
        assert(built.halfedges[pe] == g.halfedges[pe]);
        assert(built.halfedges[ip] == g.halfedges[ip]);
        assert(built.halfedges[ps] == g.halfedges[ps]);
        assert(built.halfedges[bn] == g.halfedges[bn]);
        assert(built.halfedges[inx] == g.halfedges[inx]);
        assert(built.src_vertex(ps) == Ok::<VertexId, SMeshError>(v));
        assert(built.src_vertex(bn) == Ok::<VertexId, SMeshError>(v));
        assert(built.src_vertex(inx) == Ok::<VertexId, SMeshError>(v));
        assert(built.he_vertex(pe) == Ok::<VertexId, SMeshError>(v));
        assert(links[0] == (bp, ps) && links[1] == (pe, bn) && links[2] == (ip, inx));
    } else {
        assert(links.len() == 0);
    }
}

/// The links that the corner after the `i`-th side notes where one of its
/// sides is new.
pub open spec fn corner_group(
    g: Graph,
    built: Graph,
    vs: Seq<VertexId>,
    sides: Seq<(HalfedgeId, bool)>,
    i: int,
) -> Seq<(HalfedgeId, HalfedgeId)> {
    let ii = next_index(i, vs.len() as int);
    let ip = sides[i].0;
    let inx = sides[ii].0;
    if sides[i].1 || sides[ii].1 {
        let outer_prev = built.he_opposite(inx)->Ok_0;
        let outer_next = built.he_opposite(ip)->Ok_0;
        if sides[i].1 && !sides[ii].1 {
            seq![(built.he_prev(inx)->Ok_0, outer_next), (ip, inx)]
        } else if !sides[i].1 && sides[ii].1 {
            seq![(outer_prev, built.he_next(ip)->Ok_0), (ip, inx)]
        } else {
            match g.vertex_halfedge(vs[ii]) {
                Ok(bn) => seq![(built.he_prev(bn)->Ok_0, outer_next), (outer_prev, bn), (ip, inx)],
                Err(_) => seq![(outer_prev, outer_next), (ip, inx)],
            }
        }
    } else {
        Seq::empty()
    }
}

/// The links that a corner notes rewire the halfedges at the corner.
pub proof fn lemma_corner_rewires(
    g: Graph,
    built: Graph,
    vs: Seq<VertexId>,
    existing: Seq<Option<HalfedgeId>>,
    keys: Seq<(HalfedgeId, HalfedgeId)>,
    i: int,
)
    requires
        stage(g, built, vs, existing, keys),
        0 <= i < vs.len(),
    ensures
        rewires(
            built,
            corner_group(g, built, vs, face_sides(existing, keys), i),
            vs[next_index(i, vs.len() as int)],
        ),
{
    let n = vs.len() as int;
    let sides = face_sides(existing, keys);
    let ii = next_index(i, n);
    let v = vs[ii];
    let ip = sides[i].0;
    let inx = sides[ii].0;
    lemma_sides_set(g, built, vs, existing, keys, i);
    lemma_sides_set(g, built, vs, existing, keys, ii);
    let group = corner_group(g, built, vs, sides, i);
    reveal_with_fuel(last_target, 5);
    reveal_with_fuel(last_source, 5);
    assert(i != ii);
    if sides[i].1 || sides[ii].1 {
        let outer_prev = built.he_opposite(inx)->Ok_0;
        let outer_next = built.he_opposite(ip)->Ok_0;
        assert(built.halfedges.contains_key(outer_prev) && built.halfedges.contains_key(outer_next));
        assert(built.he_vertex(outer_prev) == Ok::<VertexId, SMeshError>(v));
        assert(built.src_vertex(outer_next) == Ok::<VertexId, SMeshError>(v)) by {
            if sides[i].1 {
                assert(built.halfedges[keys[i].1] == crate::polygon::bare_outer(vs, keys, i));
            } else {
                assert(g.sound_at(ip));
            }
        }
        if sides[i].1 && !sides[ii].1 {
            assert(g.halfedges.contains_key(inx));
            assert(g.sound_at(inx) && g.whole_at(inx) && g.joined_at(inx));
            let bp = g.halfedges[inx].prev->Some_0;
            assert(g.halfedges.contains_key(bp));
            assert(g.sound_at(bp));
            assert(built.halfedges[bp] == g.halfedges[bp]);
            assert(built.halfedges[inx] == g.halfedges[inx]);
            assert(built.halfedges[keys[i].0] == crate::polygon::bare_inner(vs, keys, i));
            assert(built.halfedges[keys[i].1] == crate::polygon::bare_outer(vs, keys, i));
            assert(group =~= seq![(bp, outer_next), (ip, inx)]);
            assert(group[0] == (bp, outer_next) && group[1] == (ip, inx));
            assert(bp != ip && outer_next != inx);
        } else if !sides[i].1 && sides[ii].1 {
            assert(g.halfedges.contains_key(ip));
            assert(g.sound_at(ip) && g.whole_at(ip));
            let bn = g.halfedges[ip].next->Some_0;
            assert(g.halfedges.contains_key(bn));
            assert(g.sound_at(bn) && g.whole_at(bn) && g.joined_at(bn));
            assert(g.halfedges.contains_key(g.halfedges[bn].opposite->Some_0));
            assert(built.halfedges[bn] == g.halfedges[bn]);
            assert(built.halfedges[ip] == g.halfedges[ip]);
            assert(built.halfedges[keys[ii].0] == crate::polygon::bare_inner(vs, keys, ii));
            assert(built.halfedges[keys[ii].1] == crate::polygon::bare_outer(vs, keys, ii));
            assert(group =~= seq![(outer_prev, bn), (ip, inx)]);
            assert(group[0] == (outer_prev, bn) && group[1] == (ip, inx));
            assert(outer_prev != ip && bn != inx);
            assert(built.src_vertex(bn) == Ok::<VertexId, SMeshError>(v));
        } else {
            assert(built.halfedges[keys[i].0] == crate::polygon::bare_inner(vs, keys, i));
            assert(built.halfedges[keys[i].1] == crate::polygon::bare_outer(vs, keys, i));
            assert(built.halfedges[keys[ii].0] == crate::polygon::bare_inner(vs, keys, ii));
            assert(built.halfedges[keys[ii].1] == crate::polygon::bare_outer(vs, keys, ii));
            assert(existing[i] is None && existing[ii] is None);
            assert(keys[i].0 != keys[ii].1 && keys[i].1 != keys[ii].0 && keys[i].0 != keys[ii].0
                && keys[i].1 != keys[ii].1) by {
                if i < ii {
                    assert(keys[i].0 != keys[ii].0);
                } else {
                    assert(keys[ii].0 != keys[i].0);
                }
            }
            match g.vertex_halfedge(v) {
                Ok(bn) => {
                    assert(g.vertices.contains_key(v));
                    assert(g.spoke_at(v));
                    assert(g.halfedges.contains_key(bn));
                    assert(g.sound_at(bn) && g.whole_at(bn) && g.joined_at(bn));
                    let bp = g.halfedges[bn].prev->Some_0;
                    assert(g.halfedges.contains_key(bp));
                    assert(g.sound_at(bp));
                    assert(g.halfedges.contains_key(g.halfedges[bn].opposite->Some_0));
                    assert(built.halfedges[bn] == g.halfedges[bn]);
                    assert(built.halfedges[bp] == g.halfedges[bp]);
                    assert(group =~= seq![(bp, outer_next), (outer_prev, bn), (ip, inx)]);
                    assert(group[0] == (bp, outer_next) && group[1] == (outer_prev, bn) && group[2]
                        == (ip, inx));
                    assert(bp != outer_prev && bp != ip && bn != outer_next && bn != inx);
                    assert(built.src_vertex(bn) == Ok::<VertexId, SMeshError>(v));
                },
                Err(_) => {
                    assert(group =~= seq![(outer_prev, outer_next), (ip, inx)]);
                    assert(group[0] == (outer_prev, outer_next) && group[1] == (ip, inx));
                },
            }
        }
    } else {
        assert(group.len() == 0);
    }
}

/// The stage, and no halfedge on it but those that were there and the
/// sides that were made.
pub open spec fn staged(
    g: Graph,
    built: Graph,
    vs: Seq<VertexId>,
    existing: Seq<Option<HalfedgeId>>,
    keys: Seq<(HalfedgeId, HalfedgeId)>,
) -> bool {
    &&& stage(g, built, vs, existing, keys)
    &&& forall|h: HalfedgeId| #[trigger]
        built.halfedges.contains_key(h) ==> g.halfedges.contains_key(h) || exists|k: int|
            0 <= k < vs.len() && existing[k] is None && (h == (#[trigger] keys[k]).0 || h
                == keys[k].1)
}

/// The corners before the `i`-th whose patch was moved.
pub open spec fn moved(g: Graph, existing: Seq<Option<HalfedgeId>>, i: int) -> Set<int> {
    Set::new(|c: int| 0 <= c < i && linked_old(g, existing, c))
}

/// The graph that the links make of the graph in which the sides were made.
pub open spec fn linked_up(built: Graph, cache: Seq<(HalfedgeId, HalfedgeId)>) -> Edit {
    Edit::of(built).apply_links(cache, 0)
}

impl Graph {
    /// The links that the scan of the corners notes keep the graph wired.
    pub proof fn lemma_relinks_wired(
        self,
        built: Graph,
        vs: Seq<VertexId>,
        existing: Seq<Option<HalfedgeId>>,
        keys: Seq<(HalfedgeId, HalfedgeId)>,
        i: int,
        acc: Seq<(HalfedgeId, HalfedgeId)>,
    )
        requires
            staged(self, built, vs, existing, keys),
            0 <= i <= vs.len(),
            linked_up(built, acc).err is None,
            wired(built, linked_up(built, acc).g, vs, moved(self, existing, i)),
            linked_up(built, acc).g.vertices == built.vertices,
            linked_up(built, acc).g.faces == built.faces,
            linked_up(built, acc).g.n_halfedges == built.n_halfedges,
            self.scan_relinks(existing, i, acc) is Ok,
        ensures
            linked_up(built, self.scan_relinks(existing, i, acc)->Ok_0).err is None,
            wired(
                built,
                linked_up(built, self.scan_relinks(existing, i, acc)->Ok_0).g,
                vs,
                moved(self, existing, vs.len() as int),
            ),
            linked_up(built, self.scan_relinks(existing, i, acc)->Ok_0).g.vertices
                == built.vertices,
            linked_up(built, self.scan_relinks(existing, i, acc)->Ok_0).g.faces == built.faces,
            linked_up(built, self.scan_relinks(existing, i, acc)->Ok_0).g.n_halfedges
                == built.n_halfedges,
        decreases vs.len() - i,
    {
        if i < vs.len() {
            let group = self.relink_corner(existing, i)->Ok_0;
            let x = linked_up(built, acc);
            lemma_relink_group(self, built, vs, existing, keys, i);
            lemma_relink_rewires(self, built, vs, existing, keys, i);
            lemma_links_in_turn(Edit::of(built), acc, group, 0);
            assert(x == Edit::of(x.g));
            if linked_old(self, existing, i) {
                lemma_group_wired(built, x.g, vs, moved(self, existing, i), i, group);
                assert(moved(self, existing, i).insert(i) =~= moved(self, existing, i + 1));
            } else {
                assert(group.len() == 0);
                assert(acc + group =~= acc);
                assert(moved(self, existing, i) =~= moved(self, existing, i + 1));
            }
            self.lemma_relinks_wired(built, vs, existing, keys, i + 1, acc + group);
        }
    }
}

/// The corners that were dealt with before the corner after the `i`-th
/// side: those whose patch was moved, and those before it at which a side is
/// new.
pub open spec fn dealt(
    g: Graph,
    existing: Seq<Option<HalfedgeId>>,
    sides: Seq<(HalfedgeId, bool)>,
    i: int,
) -> Set<int> {
    Set::new(
        |c: int|
            0 <= c < existing.len() && (linked_old(g, existing, c) || (c < i && (sides[c].1
                || sides[next_index(c, existing.len() as int)].1))),
    )
}

/// The new sides at the corner after the `c`-th side have got the links
/// that the corner owes them.
pub open spec fn held_at(
    x: Graph,
    existing: Seq<Option<HalfedgeId>>,
    keys: Seq<(HalfedgeId, HalfedgeId)>,
    c: int,
) -> bool {
    let cc = next_index(c, existing.len() as int);
    &&& (existing[c] is None ==> x.halfedges[keys[c].0].next is Some
        && x.halfedges[keys[c].1].prev is Some)
    &&& (existing[cc] is None ==> x.halfedges[keys[cc].0].prev is Some
        && x.halfedges[keys[cc].1].next is Some)
}

/// The new sides at the corners before the `i`-th have got the links that
/// those corners owe them.
pub open spec fn held(
    x: Graph,
    existing: Seq<Option<HalfedgeId>>,
    keys: Seq<(HalfedgeId, HalfedgeId)>,
    i: int,
) -> bool {
    forall|c: int| 0 <= c < i ==> #[trigger] held_at(x, existing, keys, c)
}

/// Every vertex stores a halfedge that leaves it, if it stores one.
pub open spec fn spokes(built: Graph, vertices: Map<VertexId, Vertex>) -> bool {
    forall|v: VertexId| #[trigger]
        vertices.contains_key(v) ==> (match vertices[v].halfedge {
            Some(h) => built.src_vertex(h) == Ok::<VertexId, SMeshError>(v),
            None => true,
        })
}

/// The state while the corners are passed, with the graph that the links
/// noted so far make.
pub open spec fn linking(
    g: Graph,
    built: Graph,
    st: LinkState,
    vs: Seq<VertexId>,
    existing: Seq<Option<HalfedgeId>>,
    keys: Seq<(HalfedgeId, HalfedgeId)>,
    i: int,
) -> bool {
    &&& passing(g, built, st, vs, existing, keys, i)
    &&& linked_up(built, st.cache).err is None
    &&& wired(
        built,
        linked_up(built, st.cache).g,
        vs,
        dealt(g, existing, face_sides(existing, keys), i),
    )
    &&& linked_up(built, st.cache).g.n_halfedges == built.n_halfedges
    &&& held(linked_up(built, st.cache).g, existing, keys, i)
    &&& spokes(built, st.edit.g.vertices)
}

/// Passing one corner, with the graph that the links make.
pub proof fn lemma_corner_step(
    g: Graph,
    built: Graph,
    st: LinkState,
    vs: Seq<VertexId>,
    existing: Seq<Option<HalfedgeId>>,
    keys: Seq<(HalfedgeId, HalfedgeId)>,
    f: FaceId,
    i: int,
)
    requires
        stage(g, built, vs, existing, keys),
        0 <= i < vs.len(),
        linking(g, built, st, vs, existing, keys, i),
        link_corner(st, vs, face_sides(existing, keys), f, i).edit.err is None,
    ensures
        linking(
            g,
            built,
            link_corner(st, vs, face_sides(existing, keys), f, i),
            vs,
            existing,
            keys,
            i + 1,
        ),
{
    let n = vs.len() as int;
    let sides = face_sides(existing, keys);
    let ii = next_index(i, n);
    let v = vs[ii];
    let ip = sides[i].0;
    let inx = sides[ii].0;
    let g2 = st.edit.g;
    let after = link_corner(st, vs, sides, f, i);
    lemma_pass(g, built, st, vs, existing, keys, f, i);
    lemma_sides_set(g, built, vs, existing, keys, i);
    lemma_sides_set(g, built, vs, existing, keys, ii);
    assert(built.halfedges.contains_key(ip) && built.halfedges.contains_key(inx));
    assert(same_links(g2.halfedges[ip], built.halfedges[ip]));
    assert(same_links(g2.halfedges[inx], built.halfedges[inx]));
    assert(g2.halfedges.contains_key(ip) && g2.halfedges.contains_key(inx));
    assert(!touched(vs, i, v)) by {
        if touched(vs, i, v) {
            let c = choose|c: int| 0 <= c < i && #[trigger] vs[next_index(c, n)] == v;
            assert(next_index(c, n) != ii);
        }
    }
    assert(built.vertices.contains_key(v)) by {
        assert(g.vertices.contains_key(v));
    }
    assert(g2.vertices[v] == g.vertices[v]);
    let group = corner_group(g, built, vs, sides, i);
    lemma_corner_rewires(g, built, vs, existing, keys, i);
    if sides[i].1 || sides[ii].1 {
        match g.vertex_halfedge(v) {
            Ok(bn) => {
                assert(g.spoke_at(v));
                assert(g.halfedges.contains_key(bn));
                assert(same_links(g2.halfedges[bn], built.halfedges[bn]));
            },
            Err(_) => {},
        }
    }
    assert(after.cache =~= st.cache + group);
    let x = linked_up(built, st.cache);
    lemma_links_in_turn(Edit::of(built), st.cache, group, 0);
    assert(x == Edit::of(x.g));
    let before = dealt(g, existing, sides, i);
    let more = dealt(g, existing, sides, i + 1);
    if sides[i].1 || sides[ii].1 {
        assert(!linked_old(g, existing, i));
        assert(!before.contains(i));
        lemma_group_wired(built, x.g, vs, before, i, group);
        assert(before.insert(i) =~= more);
    } else {
        assert(group.len() == 0);
        assert(st.cache + group =~= st.cache);
        assert(before =~= more);
    }
    let y = linked_up(built, after.cache).g;
    // the new sides at this corner have got their links
    assert forall|c: int| 0 <= c < i + 1 implies #[trigger] held_at(y, existing, keys, c) by {
        let cc = next_index(c, n);
        if c < i {
            assert(held_at(x.g, existing, keys, c));
            if existing[c] is None {
                assert(built.halfedges.contains_key(keys[c].0));
                assert(built.halfedges.contains_key(keys[c].1));
            }
            if existing[cc] is None {
                assert(built.halfedges.contains_key(keys[cc].0));
                assert(built.halfedges.contains_key(keys[cc].1));
            }
        } else {
            let last = group.len() - 1;
            if existing[i] is None || existing[ii] is None {
                assert(group[last] == (ip, inx));
                if existing[i] is None {
                    assert(built.halfedges[keys[i].0] == crate::polygon::bare_inner(vs, keys, i));
                    assert(group[0].1 == keys[i].1);
                }
                if existing[ii] is None {
                    assert(built.halfedges[keys[ii].0] == crate::polygon::bare_inner(vs, keys, ii));
                    if existing[i] is None {
                        match g.vertex_halfedge(v) {
                            Ok(_) => {
                                assert(group[1].0 == keys[ii].1);
                            },
                            Err(_) => {
                                assert(group[0].0 == keys[ii].1);
                            },
                        }
                    } else {
                        assert(group[0].0 == keys[ii].1);
                    }
                }
            }
        }
    }
    // the corner stores a halfedge that leaves it
    assert forall|w: VertexId| #[trigger] after.edit.g.vertices.contains_key(w) implies (
    match after.edit.g.vertices[w].halfedge {
        Some(h) => built.src_vertex(h) == Ok::<VertexId, SMeshError>(w),
        None => true,
    }) by {
        assert(g2.vertices.contains_key(w));
        if w == v {
            if sides[i].1 && !sides[ii].1 {
                assert(built.halfedges[keys[i].1] == crate::polygon::bare_outer(vs, keys, i));
                assert(built.halfedges[keys[i].0] == crate::polygon::bare_inner(vs, keys, i));
            } else if !sides[i].1 && sides[ii].1 {
                assert(g.halfedges.contains_key(ip));
                assert(g.sound_at(ip) && g.whole_at(ip));
                let bn = g.halfedges[ip].next->Some_0;
                assert(g.sound_at(bn) && g.whole_at(bn) && g.joined_at(bn));
                assert(g.halfedges.contains_key(g.halfedges[bn].opposite->Some_0));
                assert(built.halfedges[bn] == g.halfedges[bn]);
            } else if sides[i].1 && sides[ii].1 {
                assert(built.halfedges[keys[i].1] == crate::polygon::bare_outer(vs, keys, i));
                assert(built.halfedges[keys[i].0] == crate::polygon::bare_inner(vs, keys, i));
            }
        }
    }
}

/// Passing the corners from the `i`-th on, with the graph that the links
/// make.
pub proof fn lemma_corners_wired(
    g: Graph,
    built: Graph,
    st: LinkState,
    vs: Seq<VertexId>,
    existing: Seq<Option<HalfedgeId>>,
    keys: Seq<(HalfedgeId, HalfedgeId)>,
    f: FaceId,
    i: int,
)
    requires
        stage(g, built, vs, existing, keys),
        0 <= i <= vs.len(),
        linking(g, built, st, vs, existing, keys, i),
        link_corners(st, vs, face_sides(existing, keys), f, i).edit.err is None,
    ensures
        linking(
            g,
            built,
            link_corners(st, vs, face_sides(existing, keys), f, i),
            vs,
            existing,
            keys,
            vs.len() as int,
        ),
    decreases vs.len() - i,
{
    if i < vs.len() {
        let linked = link_corner(st, vs, face_sides(existing, keys), f, i);
        if linked.edit.err is None {
            lemma_corner_step(g, built, st, vs, existing, keys, f, i);
            lemma_corners_wired(g, built, linked, vs, existing, keys, f, i + 1);
        }
    }
}

impl Graph {
    /// In a graph in order the search for a boundary halfedge from a
    /// halfedge that leaves `v` finds one that leaves `v`, if it finds any.
    pub proof fn lemma_find_boundary_leaves(
        self,
        start: HalfedgeId,
        cur: HalfedgeId,
        v: VertexId,
        fuel: nat,
    )
        requires
            self.in_order(),
            self.src_vertex(cur) == Ok::<VertexId, SMeshError>(v),
        ensures
            match self.find_boundary(start, cur, fuel) {
                Ok(Some(h)) => self.src_vertex(h) == Ok::<VertexId, SMeshError>(v),
                _ => true,
            },
        decreases fuel,
    {
        if fuel > 0 && !self.he_is_boundary(cur) {
            match self.cw(cur) {
                Ok(nx) => {
                    self.lemma_cw_stays(cur, v);
                    if nx != start {
                        self.lemma_find_boundary_leaves(start, nx, v, (fuel - 1) as nat);
                    }
                },
                Err(_) => {},
            }
        }
    }
}

/// The adjustment of outgoing halfedges keeps a graph in order.
pub proof fn lemma_adjust_all_in_order(e: Edit, vs: Seq<VertexId>, k: int)
    requires
        e.err is None,
        e.g.in_order(),
    ensures
        e.adjust_all(vs, k).g.in_order(),
    decreases vs.len() - k,
{
    if 0 <= k < vs.len() {
        let v = vs[k];
        let adjusted = e.adjust_outgoing_halfedge(v);
        assert(adjusted.g.in_order()) by {
            match e.g.vertex_halfedge(v) {
                Ok(h0) => {
                    assert(e.g.spoke_at(v));
                    e.g.lemma_find_boundary_leaves(h0, h0, v, e.g.n_halfedges);
                    match e.g.find_boundary(h0, h0, e.g.n_halfedges) {
                        Ok(Some(h)) => {
                            let y = adjusted.g;
                            assert(y.halfedges == e.g.halfedges);
                            assert forall|x: HalfedgeId| #[trigger] y.sound_at(x) by {
                                assert(e.g.sound_at(x));
                            }
                            assert forall|x: HalfedgeId| #[trigger] y.whole_at(x) by {
                                assert(e.g.whole_at(x));
                            }
                            assert forall|x: HalfedgeId| #[trigger] y.joined_at(x) by {
                                assert(e.g.joined_at(x));
                            }
                            assert forall|w: VertexId| #[trigger] y.spoke_at(w) by {
                                assert(e.g.spoke_at(w));
                            }
                        },
                        _ => {},
                    }
                },
                Err(_) => {},
            }
        }
        if adjusted.err is None {
            lemma_adjust_all_in_order(adjusted, vs, k + 1);
        }
    }
}

/// A halfedge of the graph that the links make is in order, once every
/// corner is dealt with.
proof fn lemma_linked_halfedge(
    g: Graph,
    built: Graph,
    x: Graph,
    y: Graph,
    vs: Seq<VertexId>,
    existing: Seq<Option<HalfedgeId>>,
    keys: Seq<(HalfedgeId, HalfedgeId)>,
    done: Set<int>,
    h: HalfedgeId,
)
    requires
        stage(g, built, vs, existing, keys),
        built.halfedges.contains_key(h) ==> g.halfedges.contains_key(h) || exists|k: int|
            0 <= k < vs.len() && existing[k] is None && (h == (#[trigger] keys[k]).0 || h
                == keys[k].1),
        wired(built, x, vs, done),
        held(x, existing, keys, vs.len() as int),
        y.halfedges.dom() == built.halfedges.dom(),
        forall|a: HalfedgeId| #[trigger]
            built.halfedges.contains_key(a) ==> same_links(y.halfedges[a], x.halfedges[a]),
    ensures
        y.sound_at(h),
        y.whole_at(h),
        y.joined_at(h),
{
    let n = vs.len() as int;
    if y.halfedges.contains_key(h) {
        assert(built.halfedges.contains_key(h));
        assert(same_links(y.halfedges[h], x.halfedges[h]));
        assert(x.threaded_at(h));
        assert(wired_at(built, x, vs, done, h));
        // the opposite
        if g.halfedges.contains_key(h) {
            assert(g.sound_at(h) && g.whole_at(h));
            assert(built.halfedges[h] == g.halfedges[h]);
            let o = g.halfedges[h].opposite->Some_0;
            assert(g.halfedges.contains_key(o));
            assert(built.halfedges[o] == g.halfedges[o]);
            assert(same_links(y.halfedges[o], x.halfedges[o]));
            assert(wired_at(built, x, vs, done, o));
        } else {
            let k = choose|k: int|
                0 <= k < vs.len() && existing[k] is None && (h == (#[trigger] keys[k]).0 || h
                    == keys[k].1);
            assert(built.halfedges.contains_key(keys[k].0));
            assert(built.halfedges[keys[k].0] == crate::polygon::bare_inner(vs, keys, k));
            assert(built.halfedges[keys[k].1] == crate::polygon::bare_outer(vs, keys, k));
            assert(same_links(y.halfedges[keys[k].0], x.halfedges[keys[k].0]));
            assert(same_links(y.halfedges[keys[k].1], x.halfedges[keys[k].1]));
            assert(wired_at(built, x, vs, done, keys[k].0));
            assert(wired_at(built, x, vs, done, keys[k].1));
            // the corner before and the corner after owe it its links
            let p = crate::polygon::prev_index(k, n);
            assert(next_index(p, n) == k);
            assert(held_at(x, existing, keys, k));
            assert(held_at(x, existing, keys, p));
        }
        match y.halfedges[h].next {
            Some(a) => {
                assert(built.halfedges.contains_key(a));
                assert(same_links(y.halfedges[a], x.halfedges[a]));
            },
            None => {},
        }
        match y.halfedges[h].prev {
            Some(a) => {
                assert(built.halfedges.contains_key(a));
                assert(same_links(y.halfedges[a], x.halfedges[a]));
                assert(wired_at(built, x, vs, done, a));
                let o = built.halfedges[h].opposite->Some_0;
                assert(built.halfedges.contains_key(o));
                assert(built.he_vertex(a) == built.src_vertex(h));
                assert(y.halfedges[a].vertex == built.halfedges[a].vertex);
                assert(y.halfedges[o].vertex == built.halfedges[o].vertex);
            },
            None => {},
        }
    }
}

impl Graph {
    /// A new face keeps the graph in order. In a graph in order the
    /// construction of a face over different vertices, where it succeeds,
    /// leaves a graph in order: every halfedge has an opposite, a next and a
    /// previous halfedge that refer back to it, the halfedges that meet at a
    /// vertex agree on it, and every vertex stores a halfedge that leaves
    /// it. Where no plan can be made the graph stays as it is.
        pub proof fn law_face_keeps_order(self, vs: Seq<VertexId>, after: Graph, r: SMeshResult<FaceId>)
        requires
            self.in_order(),
            vs.no_duplicates(),
            self.made_face(vs, after, r),
        ensures
            r is Ok ==> after.in_order(),
            self.face_plan(vs) is Err ==> after == self,
    {
        if r is Ok {
            let plan = self.face_plan(vs)->Ok_0;
            let (keys, f) = choose|keys: Seq<(HalfedgeId, HalfedgeId)>, f: FaceId| #[trigger]
                self.face_built(vs, plan, keys, f, after, r);
            let n = vs.len() as int;
            let existing = plan.existing;
            let sides = face_sides(existing, keys);
            assert(sides_run(self, vs, Seq::<Option<HalfedgeId>>::empty(), 0));
            self.lemma_scan_sides_run(vs, 0, Seq::empty());
            lemma_sides_built(Edit::of(self), vs, existing, keys, 0);
            let e1 = Edit::of(self).create_sides(vs, existing, keys, 0);
            let e2 = e1.add_face_record(f, Some(sides[n - 1].0));
            let built = e2.g;
            assert(built.halfedges == e1.g.halfedges);
            assert(staged(self, built, vs, existing, keys));
            let none = Seq::<(HalfedgeId, HalfedgeId)>::empty();
            lemma_built_wired(self, built, vs, existing, keys);
            assert(moved(self, existing, 0) =~= Set::<int>::empty());
            assert(linked_up(built, none) == Edit::of(built));
            self.lemma_relinks_wired(built, vs, existing, keys, 0, none);
            assert(owned(built, self, none, vs, sides)) by {
                assert forall|j: int| #[trigger] owned_at(built, self, none, vs, sides, j) by {}
            }
            self.lemma_relinks_owned(built, vs, existing, keys, 0, none);
            let st0 = LinkState { edit: e2, cache: plan.relinks, adjust: Seq::empty() };
            assert(passing(self, built, st0, vs, existing, keys, 0));
            assert(dealt(self, existing, sides, 0) =~= moved(self, existing, n));
            assert(spokes(built, st0.edit.g.vertices)) by {
                assert forall|v: VertexId| #[trigger] st0.edit.g.vertices.contains_key(v) implies (
                match st0.edit.g.vertices[v].halfedge {
                    Some(h) => built.src_vertex(h) == Ok::<VertexId, SMeshError>(v),
                    None => true,
                }) by {
                    assert(self.spoke_at(v));
                    match self.vertices[v].halfedge {
                        Some(h) => {
                            assert(self.halfedges.contains_key(h));
                            assert(self.sound_at(h));
                            let o = self.halfedges[h].opposite->Some_0;
                            assert(self.halfedges.contains_key(o));
                            assert(built.halfedges[h] == self.halfedges[h]);
                            assert(built.halfedges[o] == self.halfedges[o]);
                        },
                        None => {},
                    }
                }
            }
            assert(linking(self, built, st0, vs, existing, keys, 0));
            let st = link_corners(st0, vs, sides, f, 0);
            let e3 = st.edit.apply_links(st.cache, 0);
            let e4 = e3.adjust_all(st.adjust, 0);
            assert(self.build_face(vs, plan, keys, f) == e4);
            assert(e4.err is None && e4.g == after);
            assert(st.edit.err is None) by {
                if st.edit.err is Some {
                    assert(e3.err is Some) by {
                        if st.cache.len() > 0 {
                            assert(st.edit.set_next(st.cache[0].0, Some(st.cache[0].1)).err is Some);
                        }
                    }
                    assert(e4.err is Some) by {
                        if st.adjust.len() > 0 {
                            assert(e3.adjust_outgoing_halfedge(st.adjust[0]).err is Some);
                        }
                    }
                }
            }
            assert(e3.err is None) by {
                if e3.err is Some {
                    if st.adjust.len() > 0 {
                        assert(e3.adjust_outgoing_halfedge(st.adjust[0]).err is Some);
                    }
                }
            }
            lemma_corners_wired(self, built, st0, vs, existing, keys, f, 0);
            let x = linked_up(built, st.cache).g;
            let done = dealt(self, existing, sides, n);
            // the links are between live halfedges
            assert forall|j: int| 0 <= j < st.cache.len() implies built.halfedges.contains_key(
                (#[trigger] st.cache[j]).0,
            ) && built.halfedges.contains_key(st.cache[j].1) by {
                lemma_links_are_live(Edit::of(built), st.cache, 0, j);
            }
            lemma_links_made(Edit::of(built), st.cache, 0);
            lemma_links_made(st.edit, st.cache, 0);
            let y = e3.g;
            assert(y.halfedges.dom() == built.halfedges.dom());
            assert forall|a: HalfedgeId| #[trigger] built.halfedges.contains_key(a) implies same_links(
                y.halfedges[a],
                x.halfedges[a],
            ) by {
                assert(same_links(st.edit.g.halfedges[a], built.halfedges[a]));
                assert(st.edit.g.halfedges.contains_key(a));
            }
            assert forall|h: HalfedgeId| #[trigger] y.sound_at(h) by {
                lemma_linked_halfedge(self, built, x, y, vs, existing, keys, done, h);
            }
            assert forall|h: HalfedgeId| #[trigger] y.whole_at(h) by {
                lemma_linked_halfedge(self, built, x, y, vs, existing, keys, done, h);
            }
            assert forall|h: HalfedgeId| #[trigger] y.joined_at(h) by {
                lemma_linked_halfedge(self, built, x, y, vs, existing, keys, done, h);
            }
            assert(y.vertices == st.edit.g.vertices);
            assert forall|v: VertexId| #[trigger] y.spoke_at(v) by {
                if y.vertices.contains_key(v) {
                    match y.vertices[v].halfedge {
                        Some(h) => {
                            assert(built.src_vertex(h) == Ok::<VertexId, SMeshError>(v));
                            let o = built.halfedges[h].opposite->Some_0;
                            assert(same_links(y.halfedges[h], x.halfedges[h]));
                            assert(same_links(y.halfedges[o], x.halfedges[o]));
                        },
                        None => {},
                    }
                }
            }
            crate::counts::lemma_link_corners_keep_counts(st0, vs, sides, f, 0);
            assert(y.n_halfedges == built.n_halfedges);
            assert(built.halfedges_counted());
            assert(y.halfedges_counted());
            assert(y.in_order());
            lemma_adjust_all_in_order(e3, st.adjust, 0);
        }
    }
}

/// Where the links from the `k`-th on can be made, both ends of each are
/// live.
pub proof fn lemma_links_are_live(e: Edit, cache: Seq<(HalfedgeId, HalfedgeId)>, k: int, j: int)
    requires
        e.err is None,
        0 <= k <= j < cache.len(),
        e.apply_links(cache, k).err is None,
    ensures
        e.g.halfedges.contains_key(cache[j].0),
        e.g.halfedges.contains_key(cache[j].1),
    decreases cache.len() - k,
{
    let linked = e.set_next(cache[k].0, Some(cache[k].1));
    assert(linked.err is None);
    assert(linked.g.halfedges.dom() =~= e.g.halfedges.dom());
    if j > k {
        lemma_links_are_live(linked, cache, k + 1, j);
    }
}

/// A graph with the halfedges of a graph in order, up to their faces, and
/// with its vertices, is in order.
pub proof fn lemma_same_links_in_order(a: Graph, b: Graph)
    requires
        b.in_order(),
        a.halfedges.dom() == b.halfedges.dom(),
        forall|h: HalfedgeId| #[trigger]
            b.halfedges.contains_key(h) ==> same_links(a.halfedges[h], b.halfedges[h]),
        a.vertices == b.vertices,
        a.n_halfedges == b.n_halfedges,
    ensures
        a.in_order(),
{
    assert forall|h: HalfedgeId| #[trigger] a.sound_at(h) && a.whole_at(h) && a.joined_at(h) by {
        lemma_same_links_at(a, b, h);
    }
    assert forall|h: HalfedgeId| #[trigger] a.sound_at(h) by {
        lemma_same_links_at(a, b, h);
    }
    assert forall|h: HalfedgeId| #[trigger] a.whole_at(h) by {
        lemma_same_links_at(a, b, h);
    }
    assert forall|h: HalfedgeId| #[trigger] a.joined_at(h) by {
        lemma_same_links_at(a, b, h);
    }
    assert forall|v: VertexId| #[trigger] a.spoke_at(v) by {
        assert(b.spoke_at(v));
        if a.vertices.contains_key(v) {
            match a.vertices[v].halfedge {
                Some(h) => {
                    assert(b.halfedges.contains_key(h));
                    assert(same_links(a.halfedges[h], b.halfedges[h]));
                    let o = b.halfedges[h].opposite->Some_0;
                    assert(b.halfedges.contains_key(o));
                    assert(same_links(a.halfedges[o], b.halfedges[o]));
                },
                None => {},
            }
        }
    }
}

/// One halfedge of a graph with the links of a graph in order.
proof fn lemma_same_links_at(a: Graph, b: Graph, h: HalfedgeId)
    requires
        b.in_order(),
        a.halfedges.dom() == b.halfedges.dom(),
        forall|h: HalfedgeId| #[trigger]
            b.halfedges.contains_key(h) ==> same_links(a.halfedges[h], b.halfedges[h]),
    ensures
        a.sound_at(h),
        a.whole_at(h),
        a.joined_at(h),
{
    if a.halfedges.contains_key(h) {
        assert(b.halfedges.contains_key(h));
        assert(same_links(a.halfedges[h], b.halfedges[h]));
        assert(b.sound_at(h) && b.whole_at(h) && b.joined_at(h));
        let o = b.halfedges[h].opposite->Some_0;
        let x = b.halfedges[h].next->Some_0;
        let p = b.halfedges[h].prev->Some_0;
        assert(b.halfedges.contains_key(o) && b.halfedges.contains_key(x)
            && b.halfedges.contains_key(p));
        assert(same_links(a.halfedges[o], b.halfedges[o]));
        assert(same_links(a.halfedges[x], b.halfedges[x]));
        assert(same_links(a.halfedges[p], b.halfedges[p]));
    }
}

/// Taking the face off halfedges leaves their links, and the vertices, as
/// they are.
pub proof fn lemma_clear_faces_keeps_links(e: Edit, hs: Seq<HalfedgeId>, i: int)
    ensures
        e.clear_faces(hs, i).g.halfedges.dom() == e.g.halfedges.dom(),
        forall|h: HalfedgeId| #[trigger]
            e.g.halfedges.contains_key(h) ==> same_links(
                e.clear_faces(hs, i).g.halfedges[h],
                e.g.halfedges[h],
            ),
        e.clear_faces(hs, i).g.vertices == e.g.vertices,
        e.clear_faces(hs, i).g.n_halfedges == e.g.n_halfedges,
    decreases hs.len() - i,
{
    if 0 <= i < hs.len() {
        let cleared = e.set_face(hs[i], None);
        assert(cleared.g.halfedges.dom() =~= e.g.halfedges.dom());
        if cleared.err is None {
            lemma_clear_faces_keeps_links(cleared, hs, i + 1);
            assert forall|h: HalfedgeId| #[trigger] e.g.halfedges.contains_key(h) implies same_links(
                e.clear_faces(hs, i).g.halfedges[h],
                e.g.halfedges[h],
            ) by {
                assert(cleared.g.halfedges.contains_key(h));
            }
        }
    }
}

/// Removing only a face keeps a graph in order.
pub proof fn lemma_delete_only_face_in_order(e: Edit, f: FaceId)
    requires
        e.g.in_order(),
    ensures
        e.delete_only_face(f).g.in_order(),
{
    if e.err is None && e.g.faces.contains_key(f) {
        let ring = e.g.face_halfedges(f);
        lemma_clear_faces_keeps_links(e, ring, 0);
        let a = e.clear_faces(ring, 0);
        let b = a.drop_face(f);
        assert(b.g.halfedges == a.g.halfedges);
        lemma_same_links_in_order(b.g, e.g);
    }
}

impl Graph {
    /// Faces that are constructed one after another over different
    /// vertices, all with success, keep a graph in order.
    pub proof fn law_faces_made_keep_order(
        self,
        polys: Seq<Seq<VertexId>>,
        i: int,
        acc: Seq<FaceId>,
        after: Graph,
        r: SMeshResult<Seq<FaceId>>,
    )
        requires
            self.in_order(),
            0 <= i <= polys.len(),
            forall|k: int| i <= k < polys.len() ==> (#[trigger] polys[k]).no_duplicates(),
            self.faces_made(polys, i, acc, after, r),
            r is Ok,
        ensures
            after.in_order(),
        decreases polys.len() - i,
    {
        if i < polys.len() {
            let (mid, made) = choose|mid: Graph, made: SMeshResult<FaceId>|
                #![trigger self.made_face(polys[i], mid, made)]
                self.made_face(polys[i], mid, made) && (match made {
                    Err(e) => after == mid && r == Err::<Seq<FaceId>, SMeshError>(e),
                    Ok(f) => mid.faces_made(polys, i + 1, acc.push(f), after, r),
                });
            match made {
                Err(_) => {},
                Ok(f) => {
                    self.law_face_keeps_order(polys[i], mid, made);
                    mid.law_faces_made_keep_order(polys, i + 1, acc.push(f), after, r);
                },
            }
        }
    }
}

impl World {
    /// Copies of vertices keep a graph in order.
    pub proof fn lemma_with_copies_in_order(self, ps: Seq<Point3>, news: Seq<VertexId>)
        requires
            self.g.in_order(),
            fresh_vertices(self.g, news),
        ensures
            self.with_copies(ps, news).g.in_order(),
            forall|u: VertexId| #[trigger]
                self.g.vertices.contains_key(u) ==> self.with_copies(ps, news).g.vertices.contains_key(
                    u,
                ),
            forall|u: VertexId| #[trigger]
                self.with_copies(ps, news).g.vertices.contains_key(u)
                    ==> self.g.vertices.contains_key(u) || news.contains(u),
        decreases ps.len(),
    {
        if ps.len() != 0 && news.len() != 0 {
            let shorter = news.drop_last();
            assert(fresh_vertices(self.g, shorter)) by {
                assert forall|k: int| 0 <= k < shorter.len() implies shorter[k] == news[k] by {}
            }
            self.lemma_with_copies_in_order(ps.drop_last(), shorter);
            let before = self.with_copies(ps.drop_last(), shorter);
            let v = news.last();
            assert(!before.g.vertices.contains_key(v)) by {
                if before.g.vertices.contains_key(v) {
                    assert(!self.g.vertices.contains_key(news[news.len() - 1]));
                    let k = choose|k: int| 0 <= k < shorter.len() && shorter[k] == v;
                    assert(news[k] == shorter[k]);
                }
            }
            before.g.law_new_vertex_stays_in_order(v);
            assert(self.with_copies(ps, news).g == Edit::of(before.g).add_vertex(v).g);
            assert forall|u: VertexId| #[trigger]
                self.with_copies(ps, news).g.vertices.contains_key(u) implies self.g.vertices.contains_key(
                u,
            ) || news.contains(u) by {
                if u == v {
                    assert(news[news.len() - 1] == u);
                } else {
                    assert(before.g.vertices.contains_key(u));
                    if shorter.contains(u) {
                        let k = choose|k: int| 0 <= k < shorter.len() && shorter[k] == u;
                        assert(news[k] == u);
                    }
                }
            }
        }
    }

    /// An extrusion keeps the graph in order. In a graph in order the
    /// extrusion of a face with at least three different live corners,
    /// where it succeeds, leaves a graph in order.
    pub proof fn law_extrusion_keeps_order(self, face: FaceId, after: World, r: SMeshResult<FaceId>)
        requires
            self.g.in_order(),
            self.g.face_vertices(face).no_duplicates(),
            self.g.face_vertices(face).len() >= 3,
            forall|k: int|
                0 <= k < self.g.face_vertices(face).len() ==> self.g.vertices.contains_key(
                    #[trigger] self.g.face_vertices(face)[k],
                ),
            self.extruded(face, after, r),
            r is Ok,
        ensures
            after.g.in_order(),
    {
        let olds = self.g.face_vertices(face);
        let ps = self.positions(olds, 0, Seq::empty())->Ok_0;
        let news = choose|news: Seq<VertexId>| #[trigger]
            self.extruded_with(face, olds, ps, news, after, r);
        let w1 = self.with_copies(ps, news);
        self.lemma_with_copies_in_order(ps, news);
        lemma_delete_only_face_in_order(Edit::of(w1.g), face);
        let e = Edit::of(w1.g).delete_only_face(face);
        let polys = extrusion_polygons(olds, news);
        let fs = choose|fs: SMeshResult<Seq<FaceId>>| #[trigger]
            e.g.faces_made(polys, 0, Seq::empty(), after.g, fs) && r == last_face(fs);
        let n = olds.len() as int;
        assert forall|k: int| 0 <= k < polys.len() implies (#[trigger] polys[k]).no_duplicates() by {
            if k < n {
                let j = next_index(k, n);
                assert(polys[k] == wall(olds, news, k));
                assert(olds[k] != olds[j]);
                assert(news[k] != news[j]);
                assert(!self.g.vertices.contains_key(news[k]));
                assert(!self.g.vertices.contains_key(news[j]));
                assert(self.g.vertices.contains_key(olds[k]));
                assert(self.g.vertices.contains_key(olds[j]));
            } else {
                assert(polys[k] == news);
            }
        }
        e.g.law_faces_made_keep_order(polys, 0, Seq::empty(), after.g, fs);
    }
}

impl World {
    /// The extrusion of an edge keeps the graph in order. In a graph in
    /// order the extrusion of a boundary edge between two different live
    /// vertices, where it succeeds, leaves a graph in order.
    pub proof fn law_edge_extrusion_keeps_order(
        self,
        e0: HalfedgeId,
        after: World,
        r: SMeshResult<HalfedgeId>,
    )
        requires
            self.g.in_order(),
            self.edge_site(e0) is Ok ==> self.edge_site(e0)->Ok_0.0 != self.edge_site(e0)->Ok_0.1
                && self.g.vertices.contains_key(self.edge_site(e0)->Ok_0.0)
                && self.g.vertices.contains_key(self.edge_site(e0)->Ok_0.1),
            self.edge_extruded(e0, after, r),
            r is Ok,
        ensures
            after.g.in_order(),
    {
        let site = self.edge_site(e0)->Ok_0;
        let (a, b) = choose|a: VertexId, b: VertexId| #[trigger]
            self.edge_extruded_with(site.0, site.1, site.2, site.3, a, b, after, r);
        let w0 = self.added(site.2, a);
        self.g.law_new_vertex_stays_in_order(a);
        assert(w0.g == Edit::of(self.g).add_vertex(a).g);
        assert(!w0.g.vertices.contains_key(b));
        w0.g.law_new_vertex_stays_in_order(b);
        let w1 = w0.added(site.3, b);
        assert(w1.g == Edit::of(w0.g).add_vertex(b).g);
        let quad = seq![site.0, site.1, b, a];
        let made = choose|made: SMeshResult<FaceId>| #[trigger]
            w1.g.made_face(quad, after.g, made) && r == (match made {
                Err(e) => Err(e),
                Ok(_) => after.g.halfedge_to(a, b),
            });
        assert(quad.no_duplicates());
        w1.g.law_face_keeps_order(quad, after.g, made);
    }
}

/// The adjustment of one outgoing halfedge keeps a graph in order.
pub proof fn lemma_adjust_in_order(e: Edit, v: VertexId)
    requires
        e.g.in_order(),
    ensures
        e.adjust_outgoing_halfedge(v).g.in_order(),
{
    if e.err is None {
        lemma_adjust_all_in_order(e, seq![v], 0);
        let adjusted = e.adjust_outgoing_halfedge(v);
        assert(e.adjust_all(seq![v], 0) == (if adjusted.err is Some {
            adjusted
        } else {
            adjusted.adjust_all(seq![v], 1)
        }));
    }
}

/// Storing a halfedge that leaves a vertex as its outgoing halfedge keeps a
/// graph in order.
pub proof fn lemma_spoke_in_order(e: Edit, v: VertexId, h: HalfedgeId)
    requires
        e.g.in_order(),
        e.g.src_vertex(h) == Ok::<VertexId, SMeshError>(v),
    ensures
        e.set_vertex_halfedge(v, Some(h)).g.in_order(),
{
    let y = e.set_vertex_halfedge(v, Some(h)).g;
    assert(y.halfedges == e.g.halfedges);
    assert forall|x: HalfedgeId| #[trigger] y.sound_at(x) by {
        assert(e.g.sound_at(x));
    }
    assert forall|x: HalfedgeId| #[trigger] y.whole_at(x) by {
        assert(e.g.whole_at(x));
    }
    assert forall|x: HalfedgeId| #[trigger] y.joined_at(x) by {
        assert(e.g.joined_at(x));
    }
    assert forall|w: VertexId| #[trigger] y.spoke_at(w) by {
        assert(e.g.spoke_at(w));
    }
}

impl Graph {
    /// The vertex `v` can be inserted into the edge of `h0`: the edge is in
    /// order, neither of its halfedges leads into itself, `v` is a live
    /// vertex without connectivity, and the halfedge ends at a live vertex.
    pub open spec fn can_split(self, h0: HalfedgeId, v: VertexId) -> bool {
        &&& self.edge_in_order(h0)
        &&& self.halfedges[h0].next != Some(h0)
        &&& self.halfedges[self.he_opposite(h0)->Ok_0].prev != Some(self.he_opposite(h0)->Ok_0)
        &&& self.vertices.contains_key(v)
        &&& self.vertices[v].halfedge is None
        &&& self.vertices.contains_key(self.halfedges[h0].vertex)
    }

    /// The halfedges after the split of an edge, before the vertices learn
    /// of it: they are in order but for the vertex at which `h0` ended,
    /// which may still store the old opposite of `h0`.
    pub open spec fn split_links(self, h0: HalfedgeId, v: VertexId, h1: HalfedgeId, o1: HalfedgeId) -> Edit {
        let o0 = self.he_opposite(h0)->Ok_0;
        let v2 = self.halfedges[h0].vertex;
        Edit::of(self).add_edge(v, v2, h1, o1).set_next(h1, ok_of(self.he_next(h0))).set_vertex(
            h1,
            v2,
        ).set_face(h1, ok_of(self.he_face(h0))).set_next(h0, Some(h1)).set_vertex(h0, v).set_next(
            o1,
            Some(o0),
        ).set_vertex(o1, v).set_face(o1, ok_of(self.he_face(o0))).set_next_of(
            ok_of(self.he_prev(o0)),
            Some(o1),
        ).set_vertex_halfedge(v2, Some(o1))
    }

    /// The split of an edge leaves the halfedges in order, once the vertex
    /// at which the edge ended stores the new halfedge.
    pub proof fn lemma_split_links_in_order(
        self,
        h0: HalfedgeId,
        v: VertexId,
        h1: HalfedgeId,
        o1: HalfedgeId,
    )
        requires
            self.in_order(),
            self.can_split(h0, v),
            !self.halfedges.contains_key(h1),
            !self.halfedges.contains_key(o1),
            h1 != o1,
        ensures
            self.split_links(h0, v, h1, o1).err is None,
            self.split_links(h0, v, h1, o1).g.in_order(),
            self.split_links(h0, v, h1, o1).g.src_vertex(h1) == Ok::<VertexId, SMeshError>(v),
            self.split_links(h0, v, h1, o1).g.vertices.contains_key(v),
    {
        let o0 = self.he_opposite(h0)->Ok_0;
        let v2 = self.halfedges[h0].vertex;
        let h2 = self.halfedges[h0].next->Some_0;
        let o2 = self.halfedges[o0].prev->Some_0;
        let hp = self.halfedges[h0].prev->Some_0;
        let on = self.halfedges[o0].next->Some_0;
        assert(self.sound_at(h0) && self.whole_at(h0) && self.joined_at(h0));
        assert(self.sound_at(o0) && self.whole_at(o0) && self.joined_at(o0));
        assert(self.halfedges.contains_key(h2) && self.halfedges.contains_key(o2));
        assert(self.sound_at(h2) && self.whole_at(h2) && self.joined_at(h2));
        assert(self.sound_at(o2) && self.whole_at(o2) && self.joined_at(o2));
        assert(h2 != h0 && h2 != o0 && o2 != o0 && o2 != h0);
        let e0 = Edit::of(self).add_edge(v, v2, h1, o1);
        let e1 = e0.set_next(h1, Some(h2));
        let e2 = e1.set_vertex(h1, v2);
        let e3 = e2.set_face(h1, ok_of(self.he_face(h0)));
        let e4 = e3.set_next(h0, Some(h1));
        let e5 = e4.set_vertex(h0, v);
        let e6 = e5.set_next(o1, Some(o0));
        let e7 = e6.set_vertex(o1, v);
        let e8 = e7.set_face(o1, ok_of(self.he_face(o0)));
        let e9 = e8.set_next(o2, Some(o1));
        let e10 = e9.set_vertex_halfedge(v2, Some(o1));
        assert(e0.g.halfedges.dom() =~= self.halfedges.dom().insert(h1).insert(o1));
        assert(e1.err is None && e1.g.halfedges.dom() =~= e0.g.halfedges.dom());
        assert(e3.err is None && e3.g.halfedges.dom() =~= e0.g.halfedges.dom());
        assert(e4.err is None && e4.g.halfedges.dom() =~= e0.g.halfedges.dom());
        assert(e5.err is None && e5.g.halfedges.dom() =~= e0.g.halfedges.dom());
        assert(e6.err is None && e6.g.halfedges.dom() =~= e0.g.halfedges.dom());
        assert(e8.err is None && e8.g.halfedges.dom() =~= e0.g.halfedges.dom());
        assert(e9.err is None && e9.g.halfedges.dom() =~= e0.g.halfedges.dom());
        assert(e9.g.vertices == self.vertices);
        assert(e10.err is None);
        assert(self.split_links(h0, v, h1, o1) == e10);
        let y = e10.g;
        assert(y.halfedges == e9.g.halfedges);
        // the halfedges that the split touches
        assert(y.halfedges[h1] == (Halfedge {
            vertex: v2,
            face: self.halfedges[h0].face,
            opposite: Some(o1),
            prev: Some(h0),
            next: Some(h2),
        }));
        assert(y.halfedges[o1].vertex == v && y.halfedges[o1].opposite == Some(h1)
            && y.halfedges[o1].next == Some(o0) && y.halfedges[o1].prev == Some(o2));
        assert(y.halfedges[h0].vertex == v && y.halfedges[h0].next == Some(h1)
            && y.halfedges[h0].opposite == Some(o0) && y.halfedges[h0].prev == Some(hp));
        assert(y.halfedges[o0].prev == Some(o1) && y.halfedges[o0].opposite == Some(h0)
            && y.halfedges[o0].vertex == self.halfedges[o0].vertex && y.halfedges[o0].next == Some(
            on,
        ));
        assert(y.halfedges[h2].prev == Some(h1) && y.halfedges[h2].vertex
            == self.halfedges[h2].vertex && y.halfedges[h2].opposite
            == self.halfedges[h2].opposite);
        assert(y.halfedges[o2].next == Some(o1) && y.halfedges[o2].vertex
            == self.halfedges[o2].vertex && y.halfedges[o2].opposite
            == self.halfedges[o2].opposite);
        assert forall|x: HalfedgeId|
            self.halfedges.contains_key(x) && x != h0 && x != o0 && x != h2 && x != o2 implies #[trigger]
            y.halfedges[x] == self.halfedges[x] by {}
        assert forall|x: HalfedgeId| self.halfedges.contains_key(x) && x != h2 implies (
        #[trigger] y.halfedges[x]).prev == self.halfedges[x].prev || x == o0 by {}
        assert forall|x: HalfedgeId| self.halfedges.contains_key(x) && x != o2 implies (
        #[trigger] y.halfedges[x]).next == self.halfedges[x].next || x == h0 by {}
        assert forall|x: HalfedgeId| self.halfedges.contains_key(x) implies (
        #[trigger] y.halfedges[x]).opposite == self.halfedges[x].opposite && (x != h0
            ==> y.halfedges[x].vertex == self.halfedges[x].vertex) by {}
        assert forall|x: HalfedgeId| #[trigger] y.sound_at(x) && y.whole_at(x) && y.joined_at(x) by {
            if y.halfedges.contains_key(x) && x != h1 && x != o1 {
                assert(self.halfedges.contains_key(x));
                assert(self.sound_at(x) && self.whole_at(x) && self.joined_at(x));
                let xo = self.halfedges[x].opposite->Some_0;
                let xn = self.halfedges[x].next->Some_0;
                let xp = self.halfedges[x].prev->Some_0;
                assert(self.halfedges.contains_key(xo) && self.halfedges.contains_key(xn)
                    && self.halfedges.contains_key(xp));
                assert(self.sound_at(xo) && self.sound_at(xn) && self.sound_at(xp));
                assert(y.halfedges[xo].opposite == self.halfedges[xo].opposite);
                assert(y.halfedges[xn].prev == self.halfedges[xn].prev || xn == h2 || xn == o0);
                assert(y.halfedges[xp].next == self.halfedges[xp].next || xp == o2 || xp == h0);
            }
        }
        assert forall|x: HalfedgeId| #[trigger] y.sound_at(x) by {
            assert(y.sound_at(x) && y.whole_at(x) && y.joined_at(x));
        }
        assert forall|x: HalfedgeId| #[trigger] y.whole_at(x) by {
            assert(y.sound_at(x) && y.whole_at(x) && y.joined_at(x));
        }
        assert forall|x: HalfedgeId| #[trigger] y.joined_at(x) by {
            assert(y.sound_at(x) && y.whole_at(x) && y.joined_at(x));
        }
        assert forall|w: VertexId| #[trigger] y.spoke_at(w) by {
            assert(self.spoke_at(w));
            if y.vertices.contains_key(w) && w != v2 {
                match self.vertices[w].halfedge {
                    Some(s) => {
                        assert(self.halfedges.contains_key(s));
                        assert(self.sound_at(s));
                        let so = self.halfedges[s].opposite->Some_0;
                        assert(self.halfedges.contains_key(so));
                        assert(self.sound_at(so));
                        assert(so != h0);
                    },
                    None => {},
                }
            }
        }
        assert(y.halfedges_counted()) by {
            vstd::set_lib::lemma_len_union(self.halfedges.dom(), set![h1, o1]);
            assert(y.halfedges.dom() =~= self.halfedges.dom().union(set![h1, o1]));
            assert(set![h1, o1].len() <= 2) by {
                assert(set![h1, o1] =~= Set::<HalfedgeId>::empty().insert(h1).insert(o1));
            }
        }
    }
}

impl Graph {
    /// Inserting a vertex keeps the graph in order. In a graph in order the
    /// insertion of a vertex without connectivity into an edge that can be
    /// split, where it succeeds, leaves a graph in order.
    pub proof fn law_insert_vertex_keeps_order(
        self,
        h0: HalfedgeId,
        v: VertexId,
        after: Graph,
        r: SMeshResult<HalfedgeId>,
    )
        requires
            self.in_order(),
            self.can_split(h0, v),
            self.inserted_vertex(h0, v, after, r),
            r is Ok,
        ensures
            after.in_order(),
    {
        let o0 = self.he_opposite(h0)->Ok_0;
        let v2 = self.halfedges[h0].vertex;
        let (h1, o1) = choose|h1: HalfedgeId, o1: HalfedgeId|
            {
                &&& !self.halfedges.contains_key(h1)
                &&& !self.halfedges.contains_key(o1)
                &&& h1 != o1
                &&& Edit::after(after, r) == #[trigger] self.split_edge(h0, v, o0, v2, h1, o1)
                &&& (r is Ok ==> r == Ok::<HalfedgeId, SMeshError>(o1))
            };
        self.lemma_split_links_in_order(h0, v, h1, o1);
        let e10 = self.split_links(h0, v, h1, o1);
        lemma_adjust_in_order(e10, v2);
        let e11 = e10.adjust_outgoing_halfedge(v2);
        crate::face_ring::lemma_adjust_all_keeps_halfedges(e10, seq![v2], 0);
        assert(e11.g.halfedges == e10.g.halfedges) by {
            assert(e10.adjust_all(seq![v2], 0) == (if e11.err is Some {
                e11
            } else {
                e11.adjust_all(seq![v2], 1)
            }));
        }
        lemma_spoke_in_order(e11, v, h1);
        let e12 = e11.set_vertex_halfedge(v, Some(h1));
        lemma_adjust_in_order(e12, v);
        let e13 = e12.adjust_outgoing_halfedge(v);
        let e14 = e13.set_halfedge_of(ok_of(self.he_face(h0)), Some(h0));
        let e15 = e14.set_halfedge_of(ok_of(self.he_face(o0)), Some(o1));
        assert(self.split_edge(h0, v, o0, v2, h1, o1) == e15);
        assert(e15.g.halfedges == e13.g.halfedges && e15.g.vertices == e13.g.vertices
            && e15.g.n_halfedges == e13.g.n_halfedges);
        assert forall|x: HalfedgeId| #[trigger] e13.g.halfedges.contains_key(x) implies same_links(
            e15.g.halfedges[x],
            e13.g.halfedges[x],
        ) by {}
        lemma_same_links_in_order(e15.g, e13.g);
    }
}

} // verus!
