//! RR compiler core: the legacy IR (lowering, analysis, loop optimizer and
//! R emitter), the MIR data model with its side-effect analysis, and the
//! pure parts of the compile pipeline (optimization levels, CLI styling,
//! output assembly).
pub mod utils;
pub mod error;
pub mod syntax;
pub mod text;
pub mod mir;
pub mod legacy;
pub mod ir;
pub mod compiler;


