pub mod consensus;
pub mod health_connection;
pub mod laws;
pub mod logger;
pub mod messages;
pub mod node_config;
pub mod protocol;
pub mod raft_module;
pub mod state;
pub mod text;
