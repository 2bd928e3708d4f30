//! Keeps secrets and config maps in sync between Kubernetes namespaces.
pub mod cluster;
pub mod error;
pub mod history;
pub mod laws;
pub mod manager;
pub mod objects;
mod outside;
pub mod run;
pub mod string_map;
pub mod syncable;
pub mod text;

pub use error::{Error, Result};
