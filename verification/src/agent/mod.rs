pub mod agent_loop;
pub mod turn;
pub mod tool_call;
pub mod types;
