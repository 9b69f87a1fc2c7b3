//! A self-hosted file storage core: path sandboxing, authentication with
//! signed session claims, and public share links.
//!
//! The library holds the security and access-control logic. Filesystem
//! probing, the HTTP transport and the persistent stores are capabilities of
//! the surrounding program: they hand the library plain values (path strings,
//! canonicalization outcomes, directory listings) and perform the actions the
//! library decides on.

pub mod auth;
pub mod catalog;
pub mod config;
pub mod errors;
pub mod ops;
pub mod sandbox;
pub mod share;
pub mod text;
