//! A minimal extension-composition shell for an HTTP server.
//!
//! Independent feature modules ("extensions") register themselves against a
//! shared router before the server starts listening; a deterministic build
//! step folds all registered extensions, in registration order, into one
//! final routing table. The underlying routing and dispatch engine, and the
//! network listener, are external collaborators: the shell only composes the
//! router and hands it off.

pub mod addr;
pub mod extension;
pub mod routing;
pub mod shell;

pub use extension::ExtensionTrait;
pub use shell::CoreX;
