//! A triangle mesh over any vertex type, with a verified binary STL codec.
//!
//! Vertex positions are opaque to the mesh: the topology (which vertices each
//! triangle joins), merging, triangle extraction and the STL byte layout are
//! proved here, while floating-point geometry is done by callers on top of
//! these operations.

pub mod bytes;
pub mod error;
pub mod mesh;
pub mod stl;

pub use error::MeshError;
pub use mesh::{to_tris, Mesh};
pub use stl::{decode_stl, encode_stl, StlFacet};
