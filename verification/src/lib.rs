//! Client-side model of an online compilation service.
//!
//! A [`Wandbox`] is the catalog of the languages and compilers that the
//! service offers, built once from the service's listing. A
//! [`CompilationBuilder`] collects a request and resolves its target, a
//! language or a compiler, against the catalog. Fetching the listing and
//! sending the request are left to the caller.

pub mod builder;
pub mod cache;
pub mod catalog;
pub mod compiler;
pub mod error;
pub mod exclude;
pub mod lookup;
pub mod result;
pub mod status;
pub mod text;

pub use crate::builder::{CompilationBuilder, CompilationRequest};
pub use crate::catalog::Wandbox;
pub use crate::compiler::{Compiler, Language};
pub use crate::error::WandboxError;
pub use crate::result::{CompilationResult, Reply};
pub use crate::status::Status;
