//! The type lattice and the analyses that run on it.

pub mod apply;
pub mod backfilled;
pub mod builtin;
pub mod check;
pub mod constrain;
pub mod copy;
pub mod def;
pub mod growth;
pub mod info;
pub mod principal;
pub mod join;
pub mod record;
pub mod settled;
pub mod simplify;
pub mod signatures;
pub mod site;
