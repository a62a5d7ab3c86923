//! The rules of a PostgreSQL extension that runs functions written in
//! TypeScript: what its settings mean, what a function may do and import, how
//! its module is generated and its imports are resolved, fetched and loaded, and
//! how values cross between SQL and JavaScript.
//!
//! The server, the JavaScript runtime and the network are not touched here.
//! What they supply arrives as plain values, and what is to be done with them is
//! returned as plain values.
pub mod artifact;
pub mod convert;
pub mod error;
pub mod extensions;
pub mod fetch;
pub mod guc;
pub mod import_map;
pub mod json;
pub mod loader;
pub mod module_store;
pub mod permissions;
pub mod plhandler;
pub mod resolve;
pub mod runtime;
pub mod specifier;
pub mod text;
