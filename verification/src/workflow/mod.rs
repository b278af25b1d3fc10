pub mod graph;
pub mod schedule;
pub mod types;
pub mod validate;
pub mod persistence;
pub mod rules;
pub mod context;
pub mod run;
