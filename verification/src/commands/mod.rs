pub mod agent;
pub mod init;
pub mod run;
pub mod tool;
pub mod workflow;
