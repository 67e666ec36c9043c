//! Sidecar orchestration core: resolving a worker executable, building its
//! invocation, decoding its line-oriented output stream into ordered events,
//! and persisting the application's settings and its one secret.

pub mod bridge;
pub mod command;
pub mod credentials;
pub mod fspath;
pub mod resolver;
pub mod settings;
