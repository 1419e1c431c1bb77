//! Model-neutral attention contracts and workspace orchestration.

pub mod bf16;
pub mod binary32;
pub mod composed;
pub mod dense;
pub mod fa2;
pub mod features;
pub mod fp16;
pub mod probe;
pub mod qkv;
pub mod sdpa;
pub mod segmented;
pub mod softmax;
pub mod split;
