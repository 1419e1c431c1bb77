//! What a CUDA device is, as far as kernels are chosen by it.

use vstd::prelude::*;

verus! {

#[derive(Clone, Copy, Debug, PartialEq, Eq, Structural)]
pub enum CudaArchFamily {
    Sm80,
    Sm100,
    Other(u32),
}

#[derive(Clone, Copy, Debug, PartialEq, Eq, Structural)]
pub struct CudaDeviceCaps {
    pub sm: u32,
    pub compute_major: u32,
    pub multiprocessor_count: u32,
    pub arch_family: CudaArchFamily,
}

} // verus!
