//! Verified core of a local proxy that stands between a sandbox's control
//! endpoint and the application running inside the sandbox.
pub mod buffer;
pub mod env;
pub mod error;
pub mod route;
pub mod proxy;
pub mod sandbox;
pub mod poller;
pub mod stats;
