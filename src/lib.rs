//! A lazily loaded value store: typed leaf values kept as files, containers
//! kept as directories, and a database root guarded by a version header.
//!
//! The library decides and encodes; the filesystem work that its decisions
//! call for is described by [`fs_action::FsAction`] values that the caller
//! performs.
pub mod error;
pub mod lazy_type;
pub mod be;
pub mod fs_action;
pub mod file_wrapper;
pub mod lazy_data;
pub mod path;
pub mod ofile;
pub mod lazy_container;
pub mod version;
pub mod lazy_database;
pub mod lazy_archive;
pub mod lazy_trait;
pub mod utils;
