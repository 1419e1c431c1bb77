//! Contents of device memory.
//!
//! Memory is a function from addresses to the numbers stored there. The element
//! type of an operand only decides how far apart its elements lie.

use crate::types::CudaBuffer;
use vstd::prelude::*;

verus! {

/// Element `index` of an array of `width`-byte elements.
pub open spec fn element(memory: spec_fn(int) -> int, address: int, width: int, index: int) -> int {
    memory(address + index * width)
}

/// A buffer on `device` with room for `count` elements of `width` bytes.
pub open spec fn has_room(buffer: CudaBuffer, device: usize, count: int, width: int) -> bool {
    buffer.device == device && count * width <= buffer.len
}

/// `length` elements of an array, from element `start` on.
pub open spec fn row(
    memory: spec_fn(int) -> int,
    address: int,
    width: int,
    start: int,
    length: int,
) -> Seq<int> {
    Seq::new(length as nat, |i: int| element(memory, address, width, start + i))
}

/// The scalar product of two rows.
pub open spec fn inner(x: Seq<int>, y: Seq<int>) -> int
    decreases x.len(),
{
    if x.len() == 0 {
        0
    } else {
        inner(x.drop_last(), y) + x.last() * y[x.len() - 1]
    }
}

} // verus!
