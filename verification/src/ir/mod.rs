//! Passes over the legacy tree IR: lowering from the AST and the
//! type/shape/fact analysis.
pub mod analyze;
pub mod lower;
