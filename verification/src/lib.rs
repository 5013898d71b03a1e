//! Export of game icon textures: texture decoding, content addressing, command line options and
//! the bookkeeping of an export run.
//!
//! The library decides and computes. Reading the game data, locking, touching the file system and
//! writing the archive are left to its caller, which performs the requests that the job types in
//! [`job`] and [`writer`] hand out and answers them.

pub mod config;
pub mod digest;
pub mod export;
pub mod job;
pub mod laws;
pub mod paths;
pub mod report;
pub mod tex;
pub mod text;
pub mod writer;
