//! Transitive dependency graphs of a package registry: version resolution,
//! vertex interning, a depth-bounded traversal that is safe on cycles, and
//! export of the finished graph as DOT source.

pub mod version;
pub mod graph;
pub mod traversal;
