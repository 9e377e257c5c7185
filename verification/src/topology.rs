//! The topology hierarchy of a body: body, lumps, shells, faces, loops,
//! co-edges and edges.  Topology is stored apart from geometry; faces and
//! edges are named by stable identifiers.

use vstd::prelude::*;

verus! {

/// The lumps of a body.
#[derive(Debug, Clone, PartialEq)]
pub struct BodyTopology {
    pub lumps: Vec<Lump>,
}

/// A connected region of a body, bounded by shells.
#[derive(Debug, Clone, PartialEq)]
pub struct Lump {
    pub shells: Vec<Shell>,
}

/// A closed set of faces.
#[derive(Debug, Clone, PartialEq)]
pub struct Shell {
    pub faces: Vec<Face>,
}

/// A face, bounded by loops.
#[derive(Debug, Clone, PartialEq)]
pub struct Face {
    pub id: String,
    pub loops: Vec<Loop>,
}

/// A closed chain of co-edges.
#[derive(Debug, Clone, PartialEq)]
pub struct Loop {
    pub coedges: Vec<CoEdge>,
}

/// The use of an edge by a loop, with its direction along the loop.
#[derive(Debug, Clone, PartialEq)]
pub struct CoEdge {
    pub edge_id: String,
    pub forward: bool,
}

/// An edge between two named vertices.
#[derive(Debug, Clone, PartialEq)]
pub struct Edge {
    pub id: String,
    pub start_vertex: String,
    pub end_vertex: String,
}

/// The kind of element a semantic topology reference names.
#[derive(Debug, Clone, Copy, PartialEq, Eq, Hash, Structural)]
pub enum TopoRefKind {
    Face,
    Edge,
    Vertex,
}

} // verus!
