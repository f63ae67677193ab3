//! Generation of R source from the legacy IR.
pub mod emit;
pub mod rtext;
