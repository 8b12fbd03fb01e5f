//! A static-file server core: an in-memory snapshot of a directory tree,
//! the rules for refreshing it, and the resolution of request paths to
//! responses with conditional revalidation.

pub mod args;
pub mod config;
pub mod helper;
pub mod logger;
pub mod outside;
pub mod path;
pub mod pid;
pub mod response;
pub mod server_core;
pub mod store;
pub mod table;
pub mod text;
pub mod util;
