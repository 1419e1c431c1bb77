//! Matrix products: tactic selection, operand contracts and launches.

pub mod autotune;
pub mod bf16;
pub mod fp8;
pub mod geglu;
pub mod packed;
pub mod plan;
pub mod providers;
pub mod tiles;
pub mod w4a16;
pub mod w4a16_marlin;
pub mod w8a8;
