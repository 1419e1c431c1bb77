//! Values of the native interfaces.

pub mod cublas;
