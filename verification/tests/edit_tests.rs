use smesh::prelude::{
    FaceIterators, FaceOps, HalfedgeOps, Point3, RunQuery, SMesh, SMeshResult, VertexId,
    VertexIterators, VertexOps,
};

fn vec3(x: f32, y: f32, z: f32) -> Point3 {
    Point3::new(x.to_bits(), y.to_bits(), z.to_bits())
}

fn cube() -> SMeshResult<(SMesh, Vec<VertexId>)> {
    let mut mesh = SMesh::new();
    let mut v = Vec::new();
    for z in [0.0f32, 1.0] {
        v.push(mesh.add_vertex(vec3(0.0, 0.0, z)));
        v.push(mesh.add_vertex(vec3(1.0, 0.0, z)));
        v.push(mesh.add_vertex(vec3(1.0, 1.0, z)));
        v.push(mesh.add_vertex(vec3(0.0, 1.0, z)));
    }
    mesh.make_quad(v[0], v[3], v[2], v[1])?;
    mesh.make_quad(v[4], v[5], v[6], v[7])?;
    mesh.make_quad(v[0], v[1], v[5], v[4])?;
    mesh.make_quad(v[1], v[2], v[6], v[5])?;
    mesh.make_quad(v[2], v[3], v[7], v[6])?;
    mesh.make_quad(v[3], v[0], v[4], v[7])?;
    Ok((mesh, v))
}

#[test]
fn cube_is_closed() -> SMeshResult<()> {
    let (mesh, v) = cube()?;
    assert_eq!(mesh.vertices().len(), 8);
    assert_eq!(mesh.halfedges().len(), 24);
    assert_eq!(mesh.faces().len(), 6);
    assert!(mesh.is_quad_mesh());
    for x in &v {
        assert!(!x.is_boundary(&mesh));
        assert!(x.is_manifold(&mesh));
        assert_eq!(x.valence(&mesh), 3);
    }
    for h in mesh.halfedges() {
        assert!(!h.is_boundary(&mesh));
        assert_eq!(h.opposite().opposite().run(&mesh)?, h);
        assert_eq!(h.next().prev().run(&mesh)?, h);
    }
    Ok(())
}

#[test]
fn cube_extrude_face() -> SMeshResult<()> {
    let (mut mesh, v) = cube()?;
    let top = v[4].halfedge_to(v[5]).face().run(&mesh)?;
    assert_eq!(top.vertices(&mesh), vec![v[4], v[5], v[6], v[7]]);
    let new_top = mesh.extrude(top)?;
    assert_eq!(mesh.vertices().len(), 12);
    assert_eq!(mesh.faces().len(), 10);
    assert_eq!(mesh.halfedges().len(), 40);
    assert!(mesh.is_quad_mesh());
    assert_eq!(new_top.valence(&mesh), 4);
    // the old face is gone
    assert!(top.halfedge().run(&mesh).is_err());
    // no boundary is left: every wall borders its neighbours, the old rim
    // and the new top
    for h in mesh.halfedges() {
        assert!(!h.is_boundary(&mesh));
        assert_eq!(h.opposite().opposite().run(&mesh)?, h);
        assert_eq!(h.next().prev().run(&mesh)?, h);
    }
    // the copies sit where the old corners sit
    for c in new_top.vertices(&mesh) {
        assert_eq!(c.valence(&mesh), 3);
        let p = c.position(&mesh)?;
        assert_eq!(f32::from_bits(p.z), 1.0);
    }
    // each old corner of the face now has four neighbours
    for c in [v[4], v[5], v[6], v[7]] {
        assert_eq!(c.valence(&mesh), 4);
        assert_eq!(c.faces(&mesh).len(), 4);
    }
    Ok(())
}

#[test]
fn extrude_boundary_edge() -> SMeshResult<()> {
    let mut mesh = SMesh::new();
    let v0 = mesh.add_vertex(vec3(0.0, 0.0, 0.0));
    let v1 = mesh.add_vertex(vec3(1.0, 0.0, 0.0));
    let v2 = mesh.add_vertex(vec3(0.0, 1.0, 0.0));
    mesh.make_triangle(v0, v1, v2)?;
    let inner = v0.halfedge_to(v1).run(&mesh)?;
    let new_edge = mesh.extrude_edge(inner)?;
    assert_eq!(mesh.vertices().len(), 5);
    assert_eq!(mesh.faces().len(), 2);
    assert_eq!(mesh.halfedges().len(), 12);
    let a = new_edge.src_vert().run(&mesh)?;
    let b = new_edge.dst_vert().run(&mesh)?;
    assert_eq!(a.position(&mesh)?, v1.position(&mesh)?);
    assert_eq!(b.position(&mesh)?, v0.position(&mesh)?);
    assert!(new_edge.is_boundary(&mesh));
    Ok(())
}

#[test]
fn extrude_edge_needs_a_boundary() -> SMeshResult<()> {
    let (mut mesh, v) = cube()?;
    let h = v[0].halfedge_to(v[1]).run(&mesh)?;
    let r = mesh.extrude_edge(h);
    assert_eq!(
        r,
        Err(smesh::prelude::SMeshError::CustomError("Can only extrude boundary edges"))
    );
    assert_eq!(mesh.vertices().len(), 8);
    Ok(())
}

#[test]
fn edge_chain_must_follow_on() -> SMeshResult<()> {
    let mut mesh = SMesh::new();
    let v0 = mesh.add_vertex(vec3(0.0, 0.0, 0.0));
    let v1 = mesh.add_vertex(vec3(1.0, 0.0, 0.0));
    let v2 = mesh.add_vertex(vec3(0.0, 1.0, 0.0));
    mesh.make_triangle(v0, v1, v2)?;
    let inner = v0.halfedge_to(v1).run(&mesh)?;
    let r = mesh.extrude_edge_chain(vec![inner]);
    assert_eq!(r, Err(smesh::prelude::SMeshError::CustomError("Not an edge chain")));
    assert_eq!(mesh.vertices().len(), 3);
    assert_eq!(mesh.faces().len(), 1);
    Ok(())
}

#[test]
fn extrude_one_face_as_a_set() -> SMeshResult<()> {
    let (mut mesh, v) = cube()?;
    let top = v[4].halfedge_to(v[5]).face().run(&mesh)?;
    let tops = mesh.extrude_faces(vec![top])?;
    assert_eq!(tops.len(), 1);
    assert_eq!(mesh.vertices().len(), 12);
    assert_eq!(mesh.faces().len(), 10);
    assert_eq!(mesh.halfedges().len(), 40);
    for h in mesh.halfedges() {
        assert!(!h.is_boundary(&mesh));
    }
    Ok(())
}

#[test]
fn extrude_three_joined_faces() -> SMeshResult<()> {
    let mut smesh = SMesh::new();
    let v0 = smesh.add_vertex(vec3(-1.0, 0.0, 1.0));
    let v1 = smesh.add_vertex(vec3(1.0, 0.0, 1.0));
    let v2 = smesh.add_vertex(vec3(1.0, 0.0, -1.0));
    let v3 = smesh.add_vertex(vec3(-1.0, 0.0, -1.0));
    let v4 = smesh.add_vertex(vec3(3.0, 0.0, 1.0));
    let v5 = smesh.add_vertex(vec3(3.0, 0.0, -1.0));
    let v6 = smesh.add_vertex(vec3(-1.0, 0.0, -3.0));
    let v7 = smesh.add_vertex(vec3(1.0, 0.0, -3.0));

    let f0 = smesh.make_face(vec![v0, v1, v2, v3])?;
    let f1 = smesh.make_face(vec![v1, v4, v5, v2])?;
    let f2 = smesh.make_face(vec![v3, v2, v7, v6])?;
    assert_eq!(smesh.halfedges().len(), 20);

    let faces = smesh.extrude_faces(vec![f0, f1, f2])?;
    assert_eq!(faces.len(), 3);
    assert_eq!(smesh.vertices().len(), 16);
    // eight walls along the rim and three tops
    assert_eq!(smesh.faces().len(), 11);
    assert!(smesh.is_quad_mesh());
    for f in &faces {
        assert_eq!(f.valence(&smesh), 4);
    }
    // the copies sit where the old corners sit
    let old = [v0, v1, v2, v3];
    let top = faces[0].vertices(&smesh);
    for i in 0..4 {
        assert_eq!(top[i].position(&smesh)?, old[i].position(&smesh)?);
    }
    Ok(())
}
