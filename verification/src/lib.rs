//! The GDLK language and the pure logic around it: parsing, validation,
//! desugaring and execution of GDLK programs.

pub mod auth;
pub mod config;
pub mod context;
pub mod error;
pub mod lang;
pub mod models;
pub mod pagination;
pub mod server;
pub mod session;
pub mod text;
pub mod validation;
pub mod views;
pub mod vfs;
pub mod vfs_node;
