//! Storage-side logic of the Nature flow engine: the models that a stored
//! relation, meta, instance or task is turned into, the selectors that decide
//! which relations an instance follows, and the caches in front of the store.
//! The database round trips themselves live outside this crate.

pub mod cache;
pub mod error;
pub mod dao;
pub mod executor;
pub mod instance;
pub mod meta;
pub mod mission;
pub mod one_step_flow;
pub mod raw_instance;
pub mod raw_meta;
pub mod raw_task;
pub mod relation;
pub mod selector;
pub mod task_type;
pub mod text;

