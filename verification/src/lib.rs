//! A local directory-synchronisation engine: the entry model, the snapshot
//! builder, the content comparator, the deletion-order sorter and the planner
//! of bulk copy, delete and compare-and-copy operations.
//!
//! The library decides and plans; the program around it touches the disk.

pub mod bulk;
pub mod entry;
pub mod flags;
pub mod hash;
pub mod parse;
pub mod path;
pub mod progress;
pub mod snapshot;
pub mod sorter;
pub mod sync;
