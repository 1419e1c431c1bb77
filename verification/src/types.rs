use crate::error::Error;
use vstd::prelude::*;

verus! {

/// CUDA hosts have 64-bit addresses.
pub open spec fn host_is_64_bit() -> bool {
    usize::MAX == 0xffff_ffff_ffff_ffff
}

/// Element types of device tensors.
#[derive(Clone, Copy, Debug, PartialEq, Eq, Structural)]
pub enum DType {
    F32,
    F16,
    BF16,
    F8E4M3,
    I32,
    I64,
}

/// The width of one element in bytes.
pub open spec fn dtype_size(dtype: DType) -> usize {
    match dtype {
        DType::F32 | DType::I32 => 4,
        DType::F16 | DType::BF16 => 2,
        DType::F8E4M3 => 1,
        DType::I64 => 8,
    }
}

impl DType {
    pub fn size_in_bytes(self) -> (size: usize)
        ensures
            size == dtype_size(self),
    {
        match self {
            DType::F32 | DType::I32 => 4,
            DType::F16 | DType::BF16 => 2,
            DType::F8E4M3 => 1,
            DType::I64 => 8,
        }
    }
}

/// Where a tensor lives.
#[derive(Clone, Copy, Debug, PartialEq, Eq, Structural)]
pub enum Device {
    Cpu,
    Cuda(usize),
}

/// A span of device memory: its address, its length in bytes and its device.
#[derive(Clone, Copy, Debug, PartialEq, Eq, Structural)]
pub struct CudaBuffer {
    pub address: usize,
    pub len: usize,
    pub device: usize,
}

impl CudaBuffer {
    /// Whether the span ends inside the address space.
    pub open spec fn in_memory(self) -> bool {
        self.address + self.len <= usize::MAX
    }

    /// The part of the span that starts at `offset`.
    pub open spec fn part(self, offset: int, len: int) -> CudaBuffer {
        CudaBuffer {
            address: (self.address + offset) as usize,
            len: len as usize,
            device: self.device,
        }
    }

    /// Whether such a part lies inside the span.
    pub open spec fn holds(self, offset: int, len: int) -> bool {
        0 <= offset && 0 <= len && offset + len <= self.len
    }

    /// A part of the span, or the overrun.
    pub open spec fn slice_of(self, offset: int, len: int) -> Result<CudaBuffer, Error> {
        if self.holds(offset, len) {
            Ok(self.part(offset, len))
        } else {
            Err(Error::Other(VIEW_OVERRUN))
        }
    }

    /// A part of the span.
    pub fn slice(&self, offset: usize, len: usize) -> (result: Result<CudaBuffer, Error>)
        requires
            self.in_memory(),
        ensures
            result == self.slice_of(offset as int, len as int),
    {
        if offset > self.len || len > self.len - offset {
            return Err(Error::Other(VIEW_OVERRUN));
        }
        Ok(CudaBuffer { address: self.address + offset, len, device: self.device })
    }
}

pub const VIEW_OVERRUN: &'static str = "CUDA buffer view is out of bounds";

/// An address inside device memory, with the bytes that follow it.
#[derive(Clone, Copy, Debug, PartialEq, Eq, Structural)]
pub struct CudaDeviceAddress {
    pub address: usize,
    pub len: usize,
    pub device: usize,
}

/// A dense tensor: its element type, its device, its extents and its storage.
#[derive(Clone, Debug, PartialEq, Eq)]
pub struct Tensor {
    pub dtype: DType,
    pub device: Device,
    pub dims: Vec<usize>,
    pub buffer: CudaBuffer,
}

} // verus!
