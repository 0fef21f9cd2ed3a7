//! A task execution engine: a status store, a task queue and a bounded pool
//! of workers, kept in step and proved to move every task from waiting to
//! running to its end. Beside it stand small verified algorithms and data
//! structures.

pub mod engine;
pub mod file_executer;
pub mod handlers;
pub mod models;
pub mod server;
pub mod status_store;
pub mod worker_pool;

pub mod bracket_sequence;
pub mod chat;
pub mod fibonacci;
pub mod flatten;
pub mod iterators;
pub mod kolhoz_hashmap;
pub mod lru_cache;
pub mod minmax_queue;
pub mod mmv;
pub mod ordinal;
pub mod palindrome;
pub mod prime_numbers;
pub mod problem;
pub mod roshambo;
pub mod rounds;
pub mod saturating;
pub mod shrek;
pub mod sorting;
pub mod split;
pub mod text;
pub mod threadpool;
pub mod trust;
