//! Verified core of diskrush, a terminal disk benchmark.
//!
//! The library holds the decisions of the program: which tests a suite runs
//! and on how many bytes, how a test splits its work into blocks, how the
//! interactive screen reacts to keys and to the benchmark's messages, how
//! mount tables are read, how the history is kept and how the screen is laid
//! out. The binary around it performs the file and terminal I/O.

pub mod bench;
pub mod engine;
pub mod settings;
pub mod text;
pub mod drives;
pub mod history;
pub mod app;
pub mod layout;
pub mod cli;
pub mod headless;
