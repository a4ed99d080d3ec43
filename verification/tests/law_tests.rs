use smesh::prelude::{
    Face, FaceIterators, FaceOps, Halfedge, HalfedgeId, HalfedgeOps, MeshSelection,
    MeshSelectionOps, Point2, Point3, RunQuery, SMesh, SMeshError, SMeshResult, VertexId,
    VertexIterators, VertexOps,
};

fn vec3(x: f32, y: f32, z: f32) -> Point3 {
    Point3::new(x.to_bits(), y.to_bits(), z.to_bits())
}

fn polygon(mesh: &mut SMesh, n: usize) -> Vec<VertexId> {
    (0..n).map(|i| mesh.add_vertex(vec3(i as f32, (i * i) as f32, 0.0))).collect()
}

fn two_triangles(mesh: &mut SMesh) -> (VertexId, VertexId, VertexId, VertexId) {
    let v0 = mesh.add_vertex(vec3(0.0, 0.0, 0.0));
    let v1 = mesh.add_vertex(vec3(1.0, 0.0, 0.0));
    let v2 = mesh.add_vertex(vec3(0.0, 1.0, 0.0));
    let v3 = mesh.add_vertex(vec3(1.0, 1.0, 0.0));
    mesh.add_face(vec![v0, v1, v2]).unwrap();
    mesh.add_face(vec![v1, v3, v2]).unwrap();
    (v0, v1, v2, v3)
}

#[test]
fn round_trip_for_many_sizes() -> SMeshResult<()> {
    for n in 3..12 {
        let mut mesh = SMesh::new();
        let vs = polygon(&mut mesh, n);
        let f = mesh.make_face(vs)?;
        mesh.delete_face(f)?;
        assert_eq!(mesh.vertices().len(), 0);
        assert_eq!(mesh.halfedges().len(), 0);
        assert_eq!(mesh.faces().len(), 0);
    }
    Ok(())
}

#[test]
fn round_trip_leaves_the_rest() -> SMeshResult<()> {
    let mut mesh = SMesh::new();
    let (v0, v1, v2, v3) = two_triangles(&mut mesh);
    let vs = polygon(&mut mesh, 5);
    let f = mesh.make_face(vs.clone())?;
    assert_eq!(mesh.vertices().len(), 9);
    mesh.delete_face(f)?;
    assert_eq!(mesh.vertices(), vec![v0, v1, v2, v3]);
    assert_eq!(mesh.halfedges().len(), 10);
    assert_eq!(mesh.faces().len(), 2);
    for v in vs {
        assert!(mesh.position(v).is_ok());
        assert!(v.halfedge().run(&mesh).is_err());
    }
    Ok(())
}

#[test]
fn valence_sum_for_many_sizes() -> SMeshResult<()> {
    for n in 3..12 {
        let mut mesh = SMesh::new();
        let vs = polygon(&mut mesh, n);
        let f = mesh.make_face(vs.clone())?;
        assert_eq!(mesh.halfedges().len(), 2 * n);
        assert_eq!(f.valence(&mesh), n);
        assert_eq!(f.vertices(&mesh), vs);
        assert_eq!(mesh.vertices().len(), n);
        assert_eq!(mesh.faces().len(), 1);
    }
    Ok(())
}

#[test]
fn shared_edges_add_no_halfedges() -> SMeshResult<()> {
    let mut mesh = SMesh::new();
    two_triangles(&mut mesh);
    // five edges: the second triangle shares one with the first
    assert_eq!(mesh.halfedges().len(), 10);
    Ok(())
}

#[test]
fn adjusting_twice_is_adjusting_once() -> SMeshResult<()> {
    let mut mesh = SMesh::new();
    let (v0, v1, v2, v3) = two_triangles(&mut mesh);
    for v in [v0, v1, v2, v3] {
        // make an inner halfedge the stored one where there is any
        let inner = v
            .halfedges(&mesh)
            .into_iter()
            .find(|h| !h.is_boundary(&mesh))
            .unwrap();
        mesh.get_mut(v).set_halfedge(Some(inner))?;
        mesh.get_mut(v).adjust_outgoing_halfedge()?;
        let once = v.halfedge().run(&mesh)?;
        assert!(once.is_boundary(&mesh));
        mesh.get_mut(v).adjust_outgoing_halfedge()?;
        assert_eq!(v.halfedge().run(&mesh)?, once);
    }
    Ok(())
}

#[test]
fn rotation_closes_after_valence_steps() -> SMeshResult<()> {
    let mut mesh = smesh::test_utils::vertex_onering()?;
    let extra = mesh.add_vertex(vec3(9.0, 9.0, 9.0));
    for v in mesh.vertices() {
        if v == extra {
            assert_eq!(v.valence(&mesh), 0);
            continue;
        }
        let start = v.halfedge().run(&mesh)?;
        let n = v.valence(&mesh);
        assert!(n >= 2);
        let mut h = start;
        for step in 1..=n {
            h = h.cw_rotated_neighbour().run(&mesh)?;
            assert_eq!(h == start, step == n);
            assert_eq!(h.src_vert().run(&mesh)?, v);
        }
    }
    Ok(())
}

#[test]
fn manifold_where_two_triangles_share_an_edge() {
    let mut mesh = SMesh::new();
    let (v0, v1, v2, v3) = two_triangles(&mut mesh);
    for v in [v0, v1, v2, v3] {
        assert!(v.is_manifold(&mesh));
        assert!(v.is_boundary(&mesh));
    }
    assert_eq!(v1.valence(&mesh), 3);
    assert_eq!(v0.valence(&mesh), 2);
}

#[test]
fn bowtie_is_not_manifold() -> SMeshResult<()> {
    let mut mesh = SMesh::new();
    let c = mesh.add_vertex(vec3(0.0, 0.0, 0.0));
    let a0 = mesh.add_vertex(vec3(1.0, 0.0, 0.0));
    let a1 = mesh.add_vertex(vec3(1.0, 1.0, 0.0));
    let b0 = mesh.add_vertex(vec3(-1.0, 0.0, 0.0));
    let b1 = mesh.add_vertex(vec3(-1.0, -1.0, 0.0));
    mesh.make_triangle(c, a0, a1)?;
    assert!(c.is_manifold(&mesh));
    mesh.make_triangle(c, b0, b1)?;
    assert!(!c.is_manifold(&mesh));
    assert!(a0.is_manifold(&mesh));
    assert!(b1.is_manifold(&mesh));
    assert_eq!(c.valence(&mesh), 4);
    Ok(())
}

#[test]
fn bowtie_of_four_triangles() -> SMeshResult<()> {
    let mut mesh = SMesh::new();
    let c = mesh.add_vertex(vec3(0.0, 0.0, 0.0));
    let a0 = mesh.add_vertex(vec3(1.0, 0.0, 0.0));
    let a1 = mesh.add_vertex(vec3(1.0, 1.0, 0.0));
    let a2 = mesh.add_vertex(vec3(0.0, 1.0, 0.0));
    let b0 = mesh.add_vertex(vec3(-1.0, 0.0, 0.0));
    let b1 = mesh.add_vertex(vec3(-1.0, -1.0, 0.0));
    let b2 = mesh.add_vertex(vec3(0.0, -1.0, 0.0));
    mesh.make_triangle(c, a0, a1)?;
    mesh.make_triangle(c, a1, a2)?;
    assert!(c.is_manifold(&mesh));
    mesh.make_triangle(c, b0, b1)?;
    mesh.make_triangle(c, b1, b2)?;
    assert_eq!(mesh.faces().len(), 4);
    assert!(!c.is_manifold(&mesh));
    assert!(a1.is_manifold(&mesh));
    assert!(b1.is_manifold(&mesh));
    Ok(())
}

#[test]
fn fan_collapse() -> SMeshResult<()> {
    let mut mesh = SMesh::new();
    let (_, _, v2, v3) = two_triangles(&mut mesh);
    let h0 = v3.halfedge_to(v2).run(&mesh)?;
    assert!(mesh.is_collapse_ok(h0).is_ok());
    mesh.collapse(h0)?;
    assert_eq!(mesh.faces().len(), 1);
    assert_eq!(mesh.vertices().len(), 3);
    assert!(mesh.is_triangle_mesh());
    assert!(v3.halfedge().run(&mesh).is_err());
    Ok(())
}

#[test]
fn collapse_of_a_lone_triangle_is_refused() -> SMeshResult<()> {
    let mut mesh = SMesh::new();
    let vs = polygon(&mut mesh, 3);
    mesh.make_face(vs.clone())?;
    let h = vs[0].halfedge_to(vs[1]).run(&mesh)?;
    assert_eq!(mesh.is_collapse_ok(h), Err(SMeshError::TopologyError));
    Ok(())
}

#[test]
fn remove_edge_merges_two_faces() -> SMeshResult<()> {
    let mut mesh = SMesh::new();
    let (v0, v1, v2, v3) = two_triangles(&mut mesh);
    let h = v1.halfedge_to(v2).run(&mesh)?;
    mesh.remove_edge(h)?;
    assert_eq!(mesh.faces().len(), 1);
    assert_eq!(mesh.halfedges().len(), 8);
    assert_eq!(mesh.vertices().len(), 4);
    let f = mesh.faces()[0];
    assert_eq!(f.valence(&mesh), 4);
    let corners = f.vertices(&mesh);
    for v in [v0, v1, v2, v3] {
        assert!(corners.contains(&v));
    }
    Ok(())
}

#[test]
fn remove_edge_is_refused_on_a_boundary() -> SMeshResult<()> {
    let mut mesh = SMesh::new();
    let vs = polygon(&mut mesh, 3);
    mesh.make_face(vs.clone())?;
    let h = vs[0].halfedge_to(vs[1]).run(&mesh)?;
    let o = h.opposite().run(&mesh)?;
    assert_eq!(mesh.remove_edge(h), Err(SMeshError::HalfedgeHasNoFace(o)));
    assert_eq!(mesh.halfedges().len(), 6);
    assert_eq!(mesh.faces().len(), 1);
    Ok(())
}

#[test]
fn delete_only_face_keeps_edges() -> SMeshResult<()> {
    let mut mesh = SMesh::new();
    let vs = polygon(&mut mesh, 4);
    let f = mesh.make_face(vs.clone())?;
    mesh.delete_only_face(f)?;
    assert_eq!(mesh.faces().len(), 0);
    assert_eq!(mesh.halfedges().len(), 8);
    assert_eq!(mesh.vertices().len(), 4);
    for h in mesh.halfedges() {
        assert!(h.is_boundary(&mesh));
    }
    // the same face can be built again on the edges that are left
    let g = mesh.make_face(vs.clone())?;
    assert_eq!(mesh.halfedges().len(), 8);
    assert_eq!(g.vertices(&mesh), vs);
    Ok(())
}

#[test]
fn delete_only_edge_keeps_vertices() -> SMeshResult<()> {
    let mut mesh = SMesh::new();
    let (_, v1, v2, _) = two_triangles(&mut mesh);
    let h = v1.halfedge_to(v2).run(&mesh)?;
    mesh.delete_only_edge(h)?;
    assert_eq!(mesh.vertices().len(), 4);
    assert_eq!(mesh.faces().len(), 0);
    assert_eq!(mesh.halfedges().len(), 8);
    // a second time nothing happens
    mesh.delete_only_edge(h)?;
    assert_eq!(mesh.halfedges().len(), 8);
    Ok(())
}

#[test]
fn make_face_refuses_and_changes_nothing() -> SMeshResult<()> {
    let mut mesh = SMesh::new();
    let vs = polygon(&mut mesh, 4);
    assert_eq!(mesh.make_face(vec![vs[0], vs[1]]), Err(SMeshError::DefaultError));
    assert_eq!(mesh.make_face(vec![]), Err(SMeshError::DefaultError));
    let f = mesh.make_face(vs.clone())?;
    // the same winding again: every edge is used on that side
    assert_eq!(mesh.make_face(vs.clone()), Err(SMeshError::TopologyError));
    assert_eq!(mesh.halfedges().len(), 8);
    assert_eq!(mesh.faces(), vec![f]);
    // a stale vertex
    let gone = mesh.add_vertex(vec3(0.0, 0.0, 1.0));
    mesh.delete_vertex(gone)?;
    assert_eq!(
        mesh.make_face(vec![vs[0], gone, vs[1]]),
        Err(SMeshError::VertexNotFound(gone))
    );
    assert_eq!(mesh.halfedges().len(), 8);
    Ok(())
}

#[test]
fn inner_vertex_cannot_bound_a_face() -> SMeshResult<()> {
    let mut mesh = smesh::test_utils::vertex_onering()?;
    let ids = mesh.vertices();
    let centre = ids[3];
    assert!(!centre.is_boundary(&mesh));
    let a = mesh.add_vertex(vec3(0.0, 0.0, 1.0));
    let b = mesh.add_vertex(vec3(0.0, 1.0, 1.0));
    let before = mesh.halfedges().len();
    assert_eq!(mesh.make_triangle(centre, a, b), Err(SMeshError::TopologyError));
    assert_eq!(mesh.halfedges().len(), before);
    assert_eq!(mesh.faces().len(), 6);
    Ok(())
}

#[test]
fn every_error_has_its_input() -> SMeshResult<()> {
    let mut mesh = SMesh::new();
    let vs = polygon(&mut mesh, 3);
    let lone = mesh.add_vertex(vec3(5.0, 5.0, 5.0));
    let f = mesh.make_face(vs.clone())?;
    let h = vs[0].halfedge_to(vs[1]).run(&mesh)?;
    let o = h.opposite().run(&mesh)?;

    let stale_v = mesh.add_vertex(vec3(0.0, 0.0, 0.0));
    mesh.get_mut(stale_v).delete()?;
    assert_eq!(stale_v.halfedge().run(&mesh), Err(SMeshError::VertexNotFound(stale_v)));
    assert_eq!(lone.halfedge().run(&mesh), Err(SMeshError::VertexHasNoHalfEdge(lone)));

    let stale_h = HalfedgeId::from_ffi(77);
    assert_eq!(stale_h.next().run(&mesh), Err(SMeshError::HalfedgeNotFound(stale_h)));
    assert_eq!(o.face().run(&mesh), Err(SMeshError::HalfedgeHasNoFace(o)));

    let (e0, e1) = mesh.add_edge(lone, vs[0]);
    assert_eq!(e0.next().run(&mesh), Err(SMeshError::HalfedgeHasNoNext(e0)));
    assert_eq!(e1.prev().run(&mesh), Err(SMeshError::HalfedgeHasNoPrev(e1)));
    assert_eq!(e0.opposite().run(&mesh)?, e1);
    assert_eq!(e0.dst_vert().run(&mesh)?, vs[0]);
    assert_eq!(e0.src_vert().run(&mesh)?, lone);

    let bare = mesh.connectivity.insert_he(Halfedge::default());
    assert_eq!(bare.opposite().run(&mesh), Err(SMeshError::HalfedgeHasNoOpposite(bare)));

    let empty = mesh.connectivity.insert_face(Face::default());
    assert_eq!(empty.halfedge().run(&mesh), Err(SMeshError::FaceHasNoHalfEdge(empty)));
    assert_eq!(empty.valence(&mesh), 0);
    mesh.get_mut(empty).delete()?;
    assert_eq!(empty.halfedge().run(&mesh), Err(SMeshError::FaceNotFound(empty)));

    assert_eq!(
        vs[0].halfedge_to(vs[0]).run(&mesh),
        Err(SMeshError::CustomError("HalfedgeTo: Inital and dst vertex are the same"))
    );
    assert_eq!(
        vs[0].halfedge_to(lone).run(&mesh),
        Err(SMeshError::CustomError("HalfedgeTo: No connecting halfedge found"))
    );
    // a position outlives its vertex
    assert_eq!(stale_v.position(&mesh)?, vec3(0.0, 0.0, 0.0));
    assert_eq!(
        VertexId::from_ffi(1234).position(&mesh),
        Err(SMeshError::CustomError("Vertex has no position attribute"))
    );
    assert_eq!(
        vs[0].normal(&mesh),
        Err(SMeshError::CustomError("No attribute map for normals exists"))
    );
    assert_eq!(
        f.normal(&mesh),
        Err(SMeshError::CustomError("No attribute map for face normals exists"))
    );
    assert_eq!(
        mesh.uv(h),
        Err(SMeshError::CustomError("No attribute map for uvs exists"))
    );
    mesh.set_vertex_normal(vs[0], vec3(0.0, 0.0, 1.0));
    mesh.set_face_normal(f, vec3(0.0, 0.0, 1.0));
    mesh.set_uv(h, Point2::new(1, 2));
    assert_eq!(vs[0].normal(&mesh)?, vec3(0.0, 0.0, 1.0));
    assert_eq!(f.normal(&mesh)?, vec3(0.0, 0.0, 1.0));
    assert_eq!(mesh.uv(h)?, Point2::new(1, 2));
    assert_eq!(
        vs[1].normal(&mesh),
        Err(SMeshError::CustomError("Vertex has no normal attribute"))
    );
    assert_eq!(
        mesh.uv(o),
        Err(SMeshError::CustomError("Vertex has no uv attribute"))
    );
    Ok(())
}

#[test]
fn removed_identifiers_stay_dead() -> SMeshResult<()> {
    let mut mesh = SMesh::new();
    let a = mesh.add_vertex(vec3(1.0, 0.0, 0.0));
    let copy_of_a = a;
    mesh.delete_vertex(a)?;
    // the slot is used again, under another generation
    let b = mesh.add_vertex(vec3(2.0, 0.0, 0.0));
    assert_ne!(a, b);
    assert_eq!(a.as_ffi() & 0xFFFF_FFFF, b.as_ffi() & 0xFFFF_FFFF);
    assert_eq!(mesh.vertices(), vec![b]);
    assert_eq!(copy_of_a.halfedge().run(&mesh), Err(SMeshError::VertexNotFound(a)));
    assert!(mesh.connectivity.vert(copy_of_a).is_err());
    assert!(mesh.connectivity.vert(b).is_ok());
    // the position of the new vertex took the place of the old one
    assert_eq!(mesh.position(b)?, vec3(2.0, 0.0, 0.0));
    assert!(mesh.position(a).is_err());
    Ok(())
}

#[test]
fn raw_identifiers_are_made_live() {
    let v = VertexId::from_ffi(5);
    assert_eq!(v.as_ffi(), (1u64 << 32) | 5);
    assert_eq!(VertexId::from_ffi(v.as_ffi()), v);
    assert!(VertexId::default().is_null());
    assert!(!v.is_null());
    assert_eq!(VertexId::null().as_ffi(), 0x1_FFFF_FFFF);
}

#[test]
fn identifiers_come_by_rising_slot() -> SMeshResult<()> {
    let mut mesh = SMesh::new();
    let vs = polygon(&mut mesh, 6);
    assert_eq!(mesh.vertices(), vs);
    mesh.delete_vertex(vs[2])?;
    let again = mesh.add_vertex(vec3(0.0, 0.0, 0.0));
    let ids = mesh.vertices();
    assert_eq!(ids.len(), 6);
    assert_eq!(ids[2], again);
    assert_eq!(ids[3], vs[3]);
    Ok(())
}

#[test]
fn clone_is_independent() -> SMeshResult<()> {
    let mut mesh = SMesh::new();
    let vs = polygon(&mut mesh, 3);
    let f = mesh.make_face(vs.clone())?;
    let copy = mesh.clone();
    mesh.delete_face(f)?;
    assert_eq!(mesh.vertices().len(), 0);
    assert_eq!(copy.vertices(), vs);
    assert_eq!(copy.faces(), vec![f]);
    assert_eq!(f.vertices(&copy), vs);
    assert_eq!(copy.position(vs[1])?, vec3(1.0, 1.0, 0.0));
    Ok(())
}

#[test]
fn selections_resolve() -> SMeshResult<()> {
    let mut mesh = SMesh::new();
    let (v0, v1, v2, v3) = two_triangles(&mut mesh);
    let f0 = mesh.faces()[0];
    let f1 = mesh.faces()[1];

    let faces = MeshSelection::from_faces(vec![f0]);
    assert_eq!(faces.resolve_to_vertices(&mesh)?, f0.vertices(&mesh));
    assert_eq!(faces.resolve_to_halfedges(&mesh)?, f0.halfedges(&mesh));
    assert_eq!(faces.resolve_to_faces(&mesh)?, vec![f0]);

    let inner = v1.halfedge_to(v2).run(&mesh)?;
    let edges = MeshSelection::from_halfedges(vec![inner]);
    assert_eq!(edges.resolve_to_vertices(&mesh)?, vec![v1, v2]);
    assert_eq!(edges.resolve_to_faces(&mesh)?, vec![f0]);
    let outer = v1.halfedge_to(v0).run(&mesh)?;
    let rim = MeshSelection::from_halfedges(vec![outer]);
    assert_eq!(rim.resolve_to_faces(&mesh), Err(SMeshError::HalfedgeHasNoFace(outer)));

    let three = MeshSelection::from_vertices(vec![v0, v1, v2, v0]);
    assert_eq!(three.vertices(), vec![v0, v1, v2]);
    assert_eq!(three.resolve_to_faces(&mesh)?, vec![f0]);
    assert_eq!(three.resolve_to_halfedges(&mesh)?.len(), 6);

    let mut all = mesh.select_all();
    assert_eq!(all.vertices(), vec![v0, v1, v2, v3]);
    let both = all.resolve_to_faces(&mesh)?;
    assert_eq!(both.len(), 2);
    assert!(both.contains(&f0) && both.contains(&f1));
    assert_eq!(all.resolve_to_halfedges(&mesh)?.len(), 10);
    all.insert(f0);
    all.insert(f0);
    all.insert(inner);
    assert_eq!(all.faces(), vec![f0]);
    assert_eq!(all.halfedges(), vec![inner]);
    Ok(())
}

#[test]
fn combine_copies_a_mesh() -> SMeshResult<()> {
    let mut mesh = SMesh::new();
    two_triangles(&mut mesh);
    let mut other = SMesh::new();
    let vs = polygon(&mut other, 4);
    let f = other.make_face(vs.clone())?;
    other.set_vertex_normal(vs[1], vec3(0.0, 0.0, 1.0));
    let h = vs[0].halfedge_to(vs[1]).run(&other)?;
    other.set_uv(h, Point2::new(3, 4));
    let _ = f;

    mesh.combine_with(other.clone())?;
    assert_eq!(mesh.vertices().len(), 8);
    assert_eq!(mesh.halfedges().len(), 18);
    assert_eq!(mesh.faces().len(), 3);
    let ids = mesh.vertices();
    let copies = &ids[4..];
    let quad = mesh.faces()[2];
    assert_eq!(quad.vertices(&mesh), copies.to_vec());
    for (old, new) in vs.iter().zip(copies) {
        assert_eq!(new.position(&mesh)?, old.position(&other)?);
        assert_eq!(new.valence(&mesh), 2);
        assert!(new.is_boundary(&mesh));
    }
    assert_eq!(copies[1].normal(&mesh)?, vec3(0.0, 0.0, 1.0));
    assert!(copies[0].normal(&mesh).is_err());
    let nh = copies[0].halfedge_to(copies[1]).run(&mesh)?;
    assert_eq!(mesh.uv(nh)?, Point2::new(3, 4));
    for x in mesh.halfedges() {
        assert_eq!(x.opposite().opposite().run(&mesh)?, x);
        assert_eq!(x.next().prev().run(&mesh)?, x);
    }
    // the first mesh is as it was
    assert!(mesh.faces()[0].valence(&mesh) == 3 && mesh.faces()[1].valence(&mesh) == 3);
    Ok(())
}

#[test]
fn combine_refuses_dangling_references() -> SMeshResult<()> {
    let mut mesh = SMesh::new();
    let mut other = SMesh::new();
    let a = other.add_vertex(vec3(0.0, 0.0, 0.0));
    let b = other.add_vertex(vec3(1.0, 0.0, 0.0));
    other.add_edge(a, b);
    other.get_mut(b).delete()?;
    assert_eq!(mesh.combine_with(other), Err(SMeshError::VertexNotFound(b)));
    assert_eq!(mesh.vertices().len(), 0);
    assert_eq!(mesh.halfedges().len(), 0);
    Ok(())
}

#[test]
fn mutator_links_both_ways() -> SMeshResult<()> {
    let mut mesh = SMesh::new();
    let vs = polygon(&mut mesh, 3);
    let (a, _) = mesh.add_edge(vs[0], vs[1]);
    let (b, _) = mesh.add_edge(vs[1], vs[2]);
    mesh.get_mut(a).set_next(Some(b))?;
    assert_eq!(a.next().run(&mesh)?, b);
    assert_eq!(b.prev().run(&mesh)?, a);
    mesh.get_mut(a).set_prev(Some(b))?;
    assert_eq!(b.next().run(&mesh)?, a);
    mesh.get_mut(a).set_vertex(vs[2])?;
    assert_eq!(a.dst_vert().run(&mesh)?, vs[2]);
    mesh.get_mut(a).set_opposite(b)?;
    assert_eq!(b.opposite().run(&mesh)?, a);
    mesh.get_mut(a).delete()?;
    assert_eq!(mesh.halfedges().len(), 2);
    assert!(b.next().run(&mesh).is_err());
    Ok(())
}

#[test]
fn halfedge_loop_of_a_face() -> SMeshResult<()> {
    let mut mesh = SMesh::new();
    let vs = polygon(&mut mesh, 5);
    let f = mesh.make_face(vs.clone())?;
    let h = f.halfedge().run(&mesh)?;
    assert_eq!(mesh.halfedge_loop(h)?, f.halfedges(&mesh));
    let (lone, _) = mesh.add_edge(vs[0], vs[2]);
    assert_eq!(mesh.halfedge_loop(lone), Err(SMeshError::HalfedgeHasNoNext(lone)));
    Ok(())
}

fn assert_paired(mesh: &SMesh) {
    for h in mesh.halfedges() {
        let o = h.opposite().run(mesh).unwrap();
        assert_ne!(o, h);
        assert_eq!(o.opposite().run(mesh), Ok(h));
    }
}

#[test]
fn halfedges_stay_in_pairs() -> SMeshResult<()> {
    let mut mesh = SMesh::new();
    let (v0, v1, v2, v3) = two_triangles(&mut mesh);
    assert_paired(&mesh);
    assert_eq!(mesh.make_face(vec![v0, v1, v2]), Err(SMeshError::TopologyError));
    assert_paired(&mesh);
    let h = v1.halfedge_to(v2).run(&mesh)?;
    let v = mesh.add_vertex(vec3(0.5, 0.5, 0.0));
    mesh.insert_vertex(h, v)?;
    assert_paired(&mesh);
    assert_eq!(mesh.halfedges().len(), 12);

    let mut merged = SMesh::new();
    let (_, m1, m2, _) = two_triangles(&mut merged);
    let h = m1.halfedge_to(m2).run(&merged)?;
    merged.remove_edge(h)?;
    assert_paired(&merged);

    let mut fan = SMesh::new();
    let (_, _, f2, f3) = two_triangles(&mut fan);
    let h = f3.halfedge_to(f2).run(&fan)?;
    fan.collapse(h)?;
    assert_paired(&fan);

    let mut cut = SMesh::new();
    let (c0, c1, _, c3) = two_triangles(&mut cut);
    let f = cut.faces()[0];
    cut.delete_only_face(f)?;
    assert_paired(&cut);
    let h = c0.halfedge_to(c1).run(&cut)?;
    cut.delete_only_edge(h)?;
    assert_paired(&cut);
    assert_eq!(cut.halfedges().len(), 8);
    assert!(cut.position(c3).is_ok());

    mesh.delete_vertex(v3)?;
    assert_paired(&mesh);
    Ok(())
}

#[test]
fn pairs_survive_larger_edits() -> SMeshResult<()> {
    let mut mesh = SMesh::new();
    let (v0, v1, v2, v3) = two_triangles(&mut mesh);
    let rim = v0.halfedge_to(v1).run(&mesh)?;
    mesh.extrude_edge(rim)?;
    assert_paired(&mesh);
    assert_eq!(mesh.halfedges().len(), 16);

    let f = mesh.faces()[1];
    mesh.extrude(f)?;
    assert_paired(&mesh);

    let mut other = SMesh::new();
    two_triangles(&mut other);
    mesh.combine_with(other)?;
    assert_paired(&mesh);

    let mut split = SMesh::new();
    let (s0, s1, s2, s3) = two_triangles(&mut split);
    split.subdivide(MeshSelection::from_vertices(vec![s0, s1, s2, s3]))?;
    assert_paired(&split);
    assert_eq!(split.faces().len(), 8);
    let _ = (v2, v3);
    Ok(())
}

#[test]
fn deleting_a_face_twice_is_an_error() -> SMeshResult<()> {
    let mut mesh = SMesh::new();
    let vs = polygon(&mut mesh, 3);
    let f = mesh.add_face(vs)?;
    mesh.delete_face(f)?;
    let w = mesh.add_vertex(vec3(0.0, 0.0, 0.0));
    assert_eq!(mesh.delete_face(f), Err(SMeshError::FaceNotFound(f)));
    assert_eq!(mesh.delete_only_face(f), Err(SMeshError::FaceNotFound(f)));
    assert_eq!(mesh.vertices(), vec![w]);
    assert_eq!(mesh.halfedges().len(), 0);
    assert_eq!(mesh.faces().len(), 0);
    Ok(())
}

#[test]
fn deleting_only_a_face_twice_is_an_error() -> SMeshResult<()> {
    let mut mesh = SMesh::new();
    let (v0, v1, v2, v3) = two_triangles(&mut mesh);
    let f = mesh.faces()[0];
    mesh.delete_only_face(f)?;
    assert_eq!(mesh.delete_only_face(f), Err(SMeshError::FaceNotFound(f)));
    assert_eq!(mesh.delete_face(f), Err(SMeshError::FaceNotFound(f)));
    assert_eq!(mesh.vertices(), vec![v0, v1, v2, v3]);
    assert_eq!(mesh.halfedges().len(), 10);
    assert_eq!(mesh.faces().len(), 1);
    Ok(())
}

#[test]
fn no_face_through_the_centre_of_a_closed_fan() -> SMeshResult<()> {
    let mut mesh = smesh::test_utils::vertex_onering()?;
    let c = mesh.vertices()[3];
    assert!(!c.is_boundary(&mesh));
    let x = mesh.add_vertex(vec3(0.0, 0.0, 0.0));
    let y = mesh.add_vertex(vec3(1.0, 0.0, 0.0));
    assert_eq!(mesh.add_face(vec![c, x, y]), Err(SMeshError::TopologyError));
    assert_eq!(mesh.faces().len(), 6);
    assert_eq!(mesh.halfedges().len(), 24);
    assert_eq!(mesh.vertices().len(), 9);
    assert_eq!(c.valence(&mesh), 6);
    Ok(())
}

#[test]
fn a_new_vertex_always_has_its_position() {
    let mut mesh = SMesh::new();
    // an entry for the first slot under a generation far ahead of the arena
    let ahead = VertexId::from_ffi((0x4000_0001u64 << 32) | 1);
    mesh.set_position(ahead, vec3(9.0, 9.0, 9.0));
    assert_eq!(mesh.position(ahead), Ok(vec3(9.0, 9.0, 9.0)));
    let v = mesh.add_vertex(vec3(1.0, 2.0, 3.0));
    assert_eq!(v.as_ffi() & 0xFFFF_FFFF, 1);
    assert_eq!(mesh.position(v), Ok(vec3(1.0, 2.0, 3.0)));
    assert!(mesh.position(ahead).is_err());
    let w = mesh.add_vertex(vec3(4.0, 5.0, 6.0));
    assert_eq!(mesh.position(v), Ok(vec3(1.0, 2.0, 3.0)));
    assert_eq!(mesh.position(w), Ok(vec3(4.0, 5.0, 6.0)));
}

#[test]
fn copies_carry_their_positions() -> SMeshResult<()> {
    let mut a = SMesh::new();
    let ahead = VertexId::from_ffi((0x4000_0001u64 << 32) | 4);
    a.set_position(ahead, vec3(9.0, 9.0, 9.0));
    let t = polygon(&mut a, 3);
    let fa = a.add_face(t.clone())?;
    let mut b = SMesh::new();
    let q0 = b.add_vertex(vec3(-1.0, -1.0, 0.0));
    let q1 = b.add_vertex(vec3(1.0, -1.0, 0.0));
    let q2 = b.add_vertex(vec3(1.0, 1.0, 0.0));
    let q3 = b.add_vertex(vec3(-1.0, 1.0, 0.0));
    b.add_face(vec![q0, q1, q2, q3])?;
    a.combine_with(b)?;
    assert_eq!(a.vertices().len(), 7);
    assert_eq!(a.halfedges().len(), 14);
    assert_eq!(a.faces().len(), 2);
    assert_eq!(fa.vertices(&a), t);
    let vs = a.vertices();
    let corners = [
        vec3(-1.0, -1.0, 0.0),
        vec3(1.0, -1.0, 0.0),
        vec3(1.0, 1.0, 0.0),
        vec3(-1.0, 1.0, 0.0),
    ];
    for i in 0..4 {
        assert_eq!(a.position(vs[3 + i]), Ok(corners[i]));
    }
    for (i, v) in t.iter().enumerate() {
        assert_eq!(a.position(*v), Ok(vec3(i as f32, (i * i) as f32, 0.0)));
    }
    Ok(())
}

#[test]
fn a_freed_slot_comes_back_under_a_later_generation() -> SMeshResult<()> {
    let mut mesh = SMesh::new();
    let a = mesh.add_vertex(vec3(0.0, 0.0, 0.0));
    mesh.delete_vertex(a)?;
    let b = mesh.add_vertex(vec3(1.0, 0.0, 0.0));
    assert_ne!(a, b);
    assert_eq!(b.as_ffi() & 0xFFFF_FFFF, a.as_ffi() & 0xFFFF_FFFF);
    assert_eq!(b.as_ffi() >> 32, (a.as_ffi() >> 32) + 2);
    assert!(a.halfedge().run(&mesh).is_err());
    assert_eq!(mesh.position(b), Ok(vec3(1.0, 0.0, 0.0)));
    assert!(mesh.has_room(10, 10, 10));
    assert!(!mesh.has_room(usize::MAX, 0, 0));
    Ok(())
}

#[test]
fn a_live_element_takes_what_is_set() -> SMeshResult<()> {
    let mut mesh = SMesh::new();
    let (v0, v1, _, _) = two_triangles(&mut mesh);
    let h = v0.halfedge_to(v1).run(&mesh)?;
    let f = mesh.faces()[0];
    // entries for the same slots under generations far ahead of the arenas
    let ahead = |raw: u64| (0x4000_0001u64 << 32) | (raw & 0xFFFF_FFFF);
    let stale_h = HalfedgeId::from_ffi(ahead(h.as_ffi()));
    let stale_v = VertexId::from_ffi(ahead(v0.as_ffi()));
    let stale_f = smesh::prelude::FaceId::from_ffi(ahead(f.as_ffi()));
    mesh.set_uv(stale_h, Point2::new(9, 9));
    mesh.set_vertex_normal(stale_v, vec3(9.0, 9.0, 9.0));
    mesh.set_face_normal(stale_f, vec3(9.0, 9.0, 9.0));
    assert_eq!(mesh.uv(stale_h), Ok(Point2::new(9, 9)));

    mesh.set_uv(h, Point2::new(1, 2));
    mesh.set_vertex_normal(v0, vec3(0.0, 0.0, 1.0));
    mesh.set_face_normal(f, vec3(0.0, 1.0, 0.0));
    mesh.set_position(v0, vec3(5.0, 5.0, 5.0));
    assert_eq!(mesh.uv(h), Ok(Point2::new(1, 2)));
    assert_eq!(mesh.vertex_normal(v0), Ok(vec3(0.0, 0.0, 1.0)));
    assert_eq!(mesh.face_normal(f), Ok(vec3(0.0, 1.0, 0.0)));
    assert_eq!(mesh.position(v0), Ok(vec3(5.0, 5.0, 5.0)));
    assert_eq!(mesh.position(v1), Ok(vec3(1.0, 0.0, 0.0)));
    assert!(mesh.uv(stale_h).is_err());

    // an identifier that is not live is stored as the map takes it
    mesh.set_uv(stale_h, Point2::new(7, 7));
    assert_eq!(mesh.uv(stale_h), Ok(Point2::new(7, 7)));
    assert!(mesh.uv(h).is_err());
    Ok(())
}
