//! Planning layer of a CUDA inference backend.
//!
//! Every operation of the backend is a verified function from descriptions of
//! its operands to the native call it makes, or to the reason why the request
//! is refused. Allocating memory, reading the environment and making the
//! native calls is left to the program around this library.

pub mod context;
pub mod cublas;
pub mod device_caps;
pub mod error;
pub mod ffi;
pub mod kernels;
pub mod laws;
pub mod nvcc_cache;
pub mod text;
pub mod tuning;
pub mod types;
