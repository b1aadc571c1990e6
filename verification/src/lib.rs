//! The runtime of a write-ahead log that is kept in segment files: the read state of
//! its columns, the sharing of open files, and the background worker that flushes
//! files and reclaims them.
//!
//! Everything here is decided and computed without touching a file, a thread or the
//! clock. Where one of these is needed, a function says in its result what is to be
//! done, or takes what came of it as an argument.
pub mod background;
pub mod background_laws;
pub mod block;
pub mod config;
pub mod keeper;
pub mod mapping;
pub mod name_map;
pub mod reader;
pub mod reader_laws;
pub mod registry;
pub mod round_laws;
pub mod storage;
pub mod storage_laws;
pub mod sync;
pub mod uring;
