//! Client library for a wake-on-LAN server: request building, response
//! classification and the decisions taken while a device is being started.

pub mod cli;
pub mod config;
pub mod error;
pub mod headers;
pub mod requests;
pub mod server;
pub mod text;
