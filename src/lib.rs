//! Arrowhead-family space-filling curves produced by an explicit work stack.
//!
//! A rewriting grammar ([`grammar::Grammar`]) expands a root frame into a
//! stream of turn instructions; [`expander::Expander`] walks that expansion
//! without recursion, and [`planar`] turns the instructions of the planar
//! grammar into exact lattice positions. [`strip`] builds the index buffer
//! that joins consecutive vertices into line segments.

pub mod grammar;
pub mod expander;
pub mod planar;
pub mod strip;
