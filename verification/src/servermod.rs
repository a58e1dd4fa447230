//! The first server: its configuration, its store of clients, and the
//! decisions of its connection and console handlers.
pub mod clientdata;
pub mod config;
pub mod session;
