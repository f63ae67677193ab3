pub mod flow;
pub mod def;
pub mod analyze;
