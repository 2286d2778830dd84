pub mod error;
pub mod server;
pub mod service;
