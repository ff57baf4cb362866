//! Short-identifier allocation and idempotent persistence for a URL shortener.

pub mod api;
pub mod memory_repo;
pub mod url_repo;
pub mod url_service;
pub mod wrappers;
