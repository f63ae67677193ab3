pub mod effects;
