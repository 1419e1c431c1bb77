//! Which form of a kernel that has a tensor-core implementation to run.

use vstd::prelude::*;

verus! {

/// The scalar fp32 kernel.
pub const OFF: i32 = 0;

/// One BF16 pass: the fp32 operand is rounded.
///
/// On the prefill path every operand reaching the chunk-state scan was
/// already written through `__float2bfloat16` by the kernel that produced
/// it, so this pass is exact there rather than merely close.
pub const LOSSY: i32 = 1;

} // verus!
