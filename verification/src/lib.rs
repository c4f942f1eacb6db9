//! TLS termination for a small HTTPS server: PEM credential loading,
//! server-side TLS configuration, and the policy that keeps the accept
//! loop alive when individual handshakes fail.

pub mod accept;
pub mod acceptor;
pub mod config;
pub mod credentials;
pub mod error;
pub mod pem;
