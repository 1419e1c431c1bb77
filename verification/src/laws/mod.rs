//! What the planned calls compute, stated over the contents of device memory.
//!
//! A law here speaks of a call and its result: what the native kernel reads and
//! writes, given the launch that came back, is what the operands of the call
//! stand for.

pub mod attention;
pub mod bf16;
pub mod fp8;
pub mod images;
pub mod int4;
pub mod memory;
pub mod objects;
pub mod operands;
pub mod policies;
pub mod products;
pub mod quantized;
pub mod refusals;
pub mod rounding;
pub mod routing;
pub mod rows;
pub mod schedules;
pub mod selection;
pub mod splitting;
pub mod texts;
