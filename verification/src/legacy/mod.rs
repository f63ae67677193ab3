pub mod codegen;
pub mod ir;
