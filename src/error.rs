use vstd::prelude::*;

verus! {

/// The ways an operation on a mesh, or on its STL form, can fail.
#[derive(Debug, Clone, Copy, PartialEq, Eq, Structural)]
pub enum MeshError {
    /// The target path cannot be opened or created.
    FileError,
    /// STL data is shorter than its header or than its declared triangle count.
    ParseError,
    /// A normal was asked of a triangle whose edges are parallel.
    DegenerateGeometryError,
    /// A bounding box or a measure was asked of a mesh with nothing in it.
    EmptyMeshError,
    /// A triangle refers to a vertex index outside the vertex buffer.
    IndexError,
    /// A flat index list whose length is not a multiple of three.
    IndexCountError,
    /// Writing the output failed.
    WriteError,
}

} // verus!
