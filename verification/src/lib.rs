//! Persistence of conversation threads in an embedded relational store.
//!
//! A thread is a conversation row, its schema record and its message log.
//! The operations of [`protocol`] write and read threads through a
//! [`storage::StorageHandle`]. Their contracts state which statements they
//! hand to the engine and how their results follow from its answers;
//! [`laws`] states what follows for the stored threads when the engine
//! keeps to the schema catalog of [`tables`].

pub mod effects;
pub mod engine;
pub mod error;
pub mod journal;
pub mod laws;
pub mod mapper;
pub mod plan;
pub mod protocol;
pub mod secret;
pub mod statement;
pub mod storage;
pub mod tables;
pub mod thread;

pub use crate::error::{Column, Fault, StoreError};
pub use crate::protocol::{
    copy_thread, create_thread, delete_thread, duplicate_thread, get_all_threads, get_thread,
    update_thread,
};
pub use crate::secret::{get_api_key, store_api_key};
pub use crate::storage::{database_conection, initialize_database, StorageHandle};
pub use crate::thread::{Message, Thread};
