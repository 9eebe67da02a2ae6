//! The decision logic of an MCP server that drives GDB through its machine
//! interface: the command line GDB is started with, command tokens and the
//! matching of replies, the session registry, and the text of tool replies.

pub mod decimal;
pub mod error;
pub mod mi;
pub mod gdb;
pub mod tools;
