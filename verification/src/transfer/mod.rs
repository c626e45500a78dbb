//! Chunking, compression, resume state and the transfer protocol.
pub mod chunker;
pub mod compress;
pub mod engine;
pub mod resume;
