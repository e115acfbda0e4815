//! Reading the system's process table and listening sockets, to show what runs
//! inside a session.
pub mod ports;
pub mod proctree;
pub mod resources;
