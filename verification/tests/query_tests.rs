use smesh::prelude::{
    FaceIterators, FaceOps, HalfedgeOps, Point3, RunQuery, SMesh, SMeshResult, VertexId,
    VertexIterators, VertexOps,
};

fn vec3(x: f32, y: f32, z: f32) -> Point3 {
    Point3::new(x.to_bits(), y.to_bits(), z.to_bits())
}

fn quad_vertices(mesh: &mut SMesh) -> (VertexId, VertexId, VertexId, VertexId) {
    let v0 = mesh.add_vertex(vec3(-1.0, -1.0, 0.0));
    let v1 = mesh.add_vertex(vec3(1.0, -1.0, 0.0));
    let v2 = mesh.add_vertex(vec3(1.0, 1.0, 0.0));
    let v3 = mesh.add_vertex(vec3(-1.0, 1.0, 0.0));
    (v0, v1, v2, v3)
}

#[test]
fn mesh_query_basic() -> SMeshResult<()> {
    let mesh = &mut SMesh::new();
    let (v0, v1, v2, v3) = quad_vertices(mesh);
    let face_id = mesh.make_face(vec![v0, v1, v2, v3]);
    assert!(face_id.is_ok());

    let q = v0.halfedge();
    let h = q.opposite().run(mesh)?;
    let h1 = q.vert().run(mesh)?;
    let h_old = v0.halfedge().opposite().run(mesh)?;
    let h_1_old = v0.halfedge().vert().run(mesh)?;
    assert_eq!(h, h_old);
    assert_eq!(h1, h_1_old);
    Ok(())
}

#[test]
fn query_basic() -> SMeshResult<()> {
    let mesh = &mut SMesh::new();
    let (v0, v1, v2, v3) = quad_vertices(mesh);
    let face_id = mesh.add_face(vec![v0, v1, v2, v3]);
    assert!(face_id.is_ok());

    let q = v0.halfedge();
    let h = q.opposite().run(mesh)?;
    let h1 = q.vert().run(mesh)?;
    let h_old = v0.halfedge().opposite().run(mesh)?;
    let h_1_old = v0.halfedge().vert().run(mesh)?;
    assert_eq!(h, h_old);
    assert_eq!(h1, h_1_old);
    Ok(())
}

#[test]
fn mesh_query_halfedge_to() -> SMeshResult<()> {
    let mesh = &mut SMesh::new();
    let (v0, v1, v2, v3) = quad_vertices(mesh);
    let face_id = mesh.make_face(vec![v0, v1, v2, v3]);
    assert!(face_id.is_ok());

    let he_0_to_1 = v0.halfedge_to(v1);
    assert_eq!(he_0_to_1.src_vert().run(mesh)?, v0);
    assert_eq!(he_0_to_1.dst_vert().run(mesh)?, v1);
    Ok(())
}

#[test]
fn query_halfedge_to() -> SMeshResult<()> {
    let mesh = &mut SMesh::new();
    let (v0, v1, v2, v3) = quad_vertices(mesh);
    let face_id = mesh.add_face(vec![v0, v1, v2, v3]);
    assert!(face_id.is_ok());

    let he_0_to_1 = v0.halfedge_to(v1);
    assert_eq!(he_0_to_1.src_vert().run(mesh)?, v0);
    assert_eq!(he_0_to_1.dst_vert().run(mesh)?, v1);
    Ok(())
}

#[test]
fn mesh_query_valence() -> SMeshResult<()> {
    let mesh = &mut SMesh::new();
    let (v0, v1, v2, v3) = quad_vertices(mesh);
    let face_id = mesh.make_face(vec![v0, v1, v2, v3])?;
    assert_eq!(face_id.valence(mesh), 4);
    assert_eq!(v0.valence(mesh), 2);
    Ok(())
}

#[test]
fn query_valence() -> SMeshResult<()> {
    let mesh = &mut SMesh::new();
    let (v0, v1, v2, v3) = quad_vertices(mesh);
    let face_id = mesh.add_face(vec![v0, v1, v2, v3])?;
    assert_eq!(face_id.valence(mesh), 4);
    assert_eq!(v0.valence(mesh), 2);
    Ok(())
}

#[test]
fn mesh_query_manifoldness() -> SMeshResult<()> {
    let mesh = &mut SMesh::new();
    let (v0, v1, v2, v3) = quad_vertices(mesh);
    mesh.make_face(vec![v0, v1, v2, v3])?;
    assert!(v0.is_manifold(mesh));
    assert!(v3.is_manifold(mesh));
    Ok(())
}

#[test]
fn query_manifoldness() -> SMeshResult<()> {
    let mesh = &mut SMesh::new();
    let (v0, v1, v2, v3) = quad_vertices(mesh);
    mesh.add_face(vec![v0, v1, v2, v3])?;
    assert!(v0.is_manifold(mesh));
    assert!(v3.is_manifold(mesh));
    Ok(())
}

#[test]
fn iterators_vertex_around_vertex() {
    let mesh = &mut SMesh::new();
    let (v0, v1, v2, v3) = quad_vertices(mesh);
    let v4 = mesh.add_vertex(vec3(0.0, -2.0, 0.0));

    let _ = mesh.add_face(vec![v0, v1, v2, v3]);
    let _ = mesh.add_face(vec![v0, v4, v1]);

    let mut ids = vec![];
    for v_id in v0.vertices(mesh) {
        println!("{:?}", v_id);
        ids.push(v_id);
    }
    assert_eq!(ids, vec![v3, v4, v1]);

    let mut ids = vec![];
    for v_id in v0.vertices(mesh) {
        println!("{:?}", v_id);
        ids.push(v_id);
    }
    assert_eq!(ids, vec![v3, v4, v1]);
}

#[test]
fn iterators_vertex_around_face() {
    let mesh = &mut SMesh::new();
    let (v0, v1, v2, v3) = quad_vertices(mesh);
    let v4 = mesh.add_vertex(vec3(0.0, -2.0, 0.0));

    let f0 = mesh.add_face(vec![v0, v1, v2, v3]).unwrap();
    let f1 = mesh.add_face(vec![v0, v4, v1]).unwrap();

    let mut ids = f0.vertices(mesh);
    assert_eq!(ids, vec![v0, v1, v2, v3]);
    ids = f1.vertices(mesh);
    assert_eq!(ids, vec![v0, v4, v1,]);
}

#[test]
fn topological_operations_insert_vertex() -> SMeshResult<()> {
    let mesh = &mut SMesh::new();
    let (v0, v1, v2, v3) = quad_vertices(mesh);
    let face = mesh.make_face(vec![v0, v1, v2, v3])?;
    assert_eq!(face.valence(mesh), 4);

    let he = v0.halfedge_to(v1).run(mesh)?;
    let v = mesh.add_vertex(vec3(0.0, -1.0, 0.0));
    let h_res = mesh.insert_vertex(he, v)?;
    assert_eq!(v1.halfedge_to(v).run(mesh)?, h_res);
    assert_eq!(face.valence(mesh), 5);
    assert_eq!(h_res.dst_vert().run(mesh)?, v);
    assert_eq!(h_res.src_vert().run(mesh)?, v1);
    assert_eq!(h_res.next().dst_vert().run(mesh)?, v0);

    let v0_v = v0.halfedge_to(v).run(mesh)?;
    let v_v1 = v.halfedge_to(v1).run(mesh)?;
    assert_eq!(v0_v.next().run(mesh)?, v_v1);
    assert_eq!(v_v1.prev().run(mesh)?, v0_v);

    let he_next = h_res.next().next();
    assert_eq!(he_next.prev().prev().run(mesh)?, h_res);
    Ok(())
}
