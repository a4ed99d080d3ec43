pub mod mesh_elements;
pub mod error;
pub mod arena;
pub mod attribute;
pub mod graph;
pub mod edit;
pub mod face_plan;
pub mod connectivity;
pub mod mesh;
pub mod make_face;
pub mod deletion;
pub mod topological_operations;
pub mod counts;
pub mod mesh_query;
pub mod ops;
pub mod selection;
pub mod test_utils;
pub mod world;
pub mod edit_operations;
pub mod edge_chain;
pub mod extrude_faces;
pub mod subdivide;
pub mod combine;
pub mod polygon;
pub mod round_trip;
pub mod mutator;
pub mod face_ring;
pub mod pairs;
pub mod paired_edits;
pub mod laws;
pub mod edit_laws;
pub mod shared_sides;
pub mod kept_order;
pub mod prelude;
