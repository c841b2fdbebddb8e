//! The embedded MCP server: what its tools take, how it names what it writes, how
//! it shows a finished replica, and when it runs.

pub mod answers;
pub mod assets;
pub mod messages;
pub mod params;
pub mod replica;
pub mod selection;
pub mod server;
