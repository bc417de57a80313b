//! Buffers in the body of an IPC message.
pub mod compression;
pub mod endianess;
pub mod laws;
pub mod read_basic;
pub mod read_laws;
pub mod reader;
