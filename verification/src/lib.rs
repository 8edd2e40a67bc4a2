//! Send a single notification email: locate and parse a configuration file,
//! fetch the SMTP password from the platform credential store, and dispatch
//! one message over an authenticated SMTP relay session.
//!
//! The pipeline is strictly linear: locate -> load -> retrieve credential ->
//! dispatch. Each stage fails fast with a dedicated error kind; the secret is
//! held only in memory and never flows into a message body or an error text.
//!
//! Fixed transport policy: submission is always encrypted — the relay client
//! is built for implicit TLS on the configured port, never plaintext.

pub mod config;
pub mod credential;
pub mod dispatch;
pub mod errors;
pub mod locate;
pub mod schema;
