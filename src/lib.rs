//! Record services of a chat product: file metadata and chat messages.
//!
//! Each service is a repository of records kept in creation order, with
//! soft deletion, filtered and paged listing, and in-place updates, and a
//! service layer that parses identifiers, reads the clock and maps
//! outcomes onto the error kinds of [`error::ServiceError`].

pub mod clock;
pub mod config;
pub mod error;
pub mod file;
pub mod file_service;
pub mod file_store;
pub mod ids;
pub mod lifecycle;
pub mod message;
pub mod message_service;
pub mod message_store;
pub mod paging;
pub mod text;
