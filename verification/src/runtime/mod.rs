pub mod channels;
pub mod select;
pub mod session;
pub mod types;
pub mod multi_agent;
pub mod builder;
