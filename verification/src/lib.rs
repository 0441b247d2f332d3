//! Authentication core of a desktop mail client: PKCE authorization flow,
//! loopback-callback parsing, provider discovery, and a multi-account
//! credential vault kept consistent with a shared in-memory credential view.

pub mod accounts;
pub mod callback;
pub mod codec;
pub mod discovery;
pub mod errors;
pub mod flow;
pub mod pkce;
pub mod requests;
pub mod settings;
pub mod vault;
