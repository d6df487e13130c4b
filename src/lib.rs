//! Synchronises a directory of audio files into a library laid out by
//! their metadata: destination paths, lossless classification, the
//! transcode-or-copy decision, encoder arguments, batch summaries and the
//! preview report. Reading files, running the encoder and walking
//! directories are left to the caller, which hands plain values in.

pub mod text;
pub mod paths;
pub mod config;
pub mod opt_parser;
pub mod file_structure;
pub mod batch;
pub mod preview;
