//! Domain models and the application-wide error type.
pub mod communication;
pub mod dns;
pub mod error;
pub mod file;
pub mod mtr;
pub mod network;
pub mod ping;
pub mod process;
pub mod tcp_probe;
