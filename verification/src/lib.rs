//! Verified core of a helper that installs a private model configuration
//! into the Pi and OMP clients.
pub mod json;
pub mod text;
pub mod config;
pub mod documents;
pub mod codec;
pub mod client_files;
pub mod laws;
pub mod vault;
pub mod access;
