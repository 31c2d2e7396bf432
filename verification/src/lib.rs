//! Type inference and flow analysis for a markup language with embedded
//! scripting: a lattice of type terms, a catalog of built-in shapes, a walker
//! that infers a type for every syntax node while posting bounds on inference
//! variables, and a simplifier that turns a term into a principal type.

pub mod complete;
pub mod syntax;
pub mod ty;
pub mod value;
