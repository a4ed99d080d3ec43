use smesh::prelude::{
    FaceOps, MeshSelection, Point3, SMesh, SMeshResult, VertexIterators, VertexOps,
};

fn vec3(x: f32, y: f32, z: f32) -> Point3 {
    Point3::new(x.to_bits(), y.to_bits(), z.to_bits())
}

#[test]
fn subdivide_a_quad() -> SMeshResult<()> {
    let mut mesh = SMesh::new();
    let v0 = mesh.add_vertex(vec3(-1.0, -1.0, 0.0));
    let v1 = mesh.add_vertex(vec3(1.0, -1.0, 0.0));
    let v2 = mesh.add_vertex(vec3(1.0, 1.0, 0.0));
    let v3 = mesh.add_vertex(vec3(-1.0, 1.0, 0.0));
    mesh.make_quad(v0, v1, v2, v3)?;
    let done = mesh.subdivide(MeshSelection::from_vertices(vec![v0, v1, v2, v3]))?;
    assert_eq!(mesh.vertices().len(), 9);
    assert_eq!(mesh.faces().len(), 4);
    assert!(mesh.is_quad_mesh());
    assert_eq!(done.selection.faces().len(), 4);
    // four new vertices on the edges, each between two old ones, and one
    // in the middle of the eight corners
    assert_eq!(done.placements.len(), 5);
    for p in &done.placements[..4] {
        assert_eq!(p.among.len(), 2);
    }
    assert_eq!(done.placements[4].among.len(), 8);
    let centre = done.placements[4].vertex;
    assert_eq!(centre.valence(&mesh), 4);
    assert!(!centre.is_boundary(&mesh));
    for f in done.selection.faces() {
        assert_eq!(f.valence(&mesh), 4);
    }
    Ok(())
}

#[test]
fn subdivide_a_triangle() -> SMeshResult<()> {
    let mut mesh = SMesh::new();
    let v0 = mesh.add_vertex(vec3(0.0, 0.0, 0.0));
    let v1 = mesh.add_vertex(vec3(1.0, 0.0, 0.0));
    let v2 = mesh.add_vertex(vec3(0.0, 1.0, 0.0));
    mesh.make_triangle(v0, v1, v2)?;
    let done = mesh.subdivide(MeshSelection::from_vertices(vec![v0, v1, v2]))?;
    assert_eq!(mesh.vertices().len(), 6);
    assert_eq!(mesh.faces().len(), 4);
    assert!(mesh.is_triangle_mesh());
    assert_eq!(done.placements.len(), 3);
    assert_eq!(done.selection.faces().len(), 4);
    for v in [v0, v1, v2] {
        assert_eq!(v.vertices(&mesh).len(), 2);
    }
    Ok(())
}

#[test]
fn subdivide_leaves_a_pentagon() -> SMeshResult<()> {
    let mut mesh = SMesh::new();
    let v0 = mesh.add_vertex(vec3(0.0, 0.0, 0.0));
    let v1 = mesh.add_vertex(vec3(1.0, 0.0, 0.0));
    let v2 = mesh.add_vertex(vec3(1.0, 1.0, 0.0));
    let v3 = mesh.add_vertex(vec3(0.0, 1.0, 0.0));
    let v4 = mesh.add_vertex(vec3(0.5, 1.5, 0.0));
    let f = mesh.make_face(vec![v0, v1, v2, v3, v4])?;
    let done = mesh.subdivide(MeshSelection::from_faces(vec![f]))?;
    // every edge is split, the face itself stays
    assert_eq!(mesh.vertices().len(), 10);
    assert_eq!(mesh.faces().len(), 1);
    assert_eq!(f.valence(&mesh), 10);
    assert_eq!(done.placements.len(), 5);
    assert_eq!(done.selection.faces().len(), 0);
    Ok(())
}
