//! Bookkeeping of polygon cutting: which vertices and crossing points each
//! fragment receives when a polygon is split by a line, and how the working
//! set of fragments evolves as lines are applied one after another.
//!
//! Points live in an arena owned by the caller and are referred to by index;
//! a polygon is the ring of its vertex ids. The geometric tests (side of a
//! vertex, where an edge meets the line) are made by the caller and handed
//! in as plain values.
pub mod ring;
pub mod rounds;
pub mod split;
