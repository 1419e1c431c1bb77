//! Physical kernel contracts.

pub mod attention;
pub mod cache;
pub mod contracts;
pub mod elementwise;
pub mod gdn_policy;
pub mod gemm;
pub mod moe;
pub mod preprocess;
