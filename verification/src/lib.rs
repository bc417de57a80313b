//! Moving columnar arrays over two boundaries: the C data interface (`ffi`)
//! and the body of an IPC message (`ipc`).
mod arith;
pub mod array;
pub mod bitmap;
pub mod buffer;
pub mod byte_order;
pub mod datatypes;
pub mod error;
pub mod ffi;
pub mod ipc;
pub mod text;
pub mod types;
