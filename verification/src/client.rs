//! The client program: its settings and the decisions of its side of the
//! connection protocol.
pub mod config;
pub mod protocol;
