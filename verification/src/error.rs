use crate::types::{DType, Device};
use vstd::prelude::*;

verus! {

/// The extents of a tensor: how many there are, and the first four of them,
/// zero where there are fewer.
#[derive(Clone, Copy, Debug, PartialEq, Eq, Structural)]
pub struct Shape {
    pub rank: usize,
    pub first: usize,
    pub second: usize,
    pub third: usize,
    pub fourth: usize,
}

pub open spec fn extent(dims: Seq<usize>, index: int) -> usize {
    if index < dims.len() {
        dims[index]
    } else {
        0
    }
}

pub open spec fn shape_of(dims: Seq<usize>) -> Shape {
    Shape {
        rank: dims.len() as usize,
        first: extent(dims, 0),
        second: extent(dims, 1),
        third: extent(dims, 2),
        fourth: extent(dims, 3),
    }
}

fn extent_at(dims: &[usize], index: usize) -> (value: usize)
    ensures
        value == extent(dims@, index as int),
{
    if index < dims.len() {
        dims[index]
    } else {
        0
    }
}

impl Shape {
    pub fn of(dims: &[usize]) -> (shape: Self)
        ensures
            shape == shape_of(dims@),
    {
        Shape {
            rank: dims.len(),
            first: extent_at(dims, 0),
            second: extent_at(dims, 1),
            third: extent_at(dims, 2),
            fourth: extent_at(dims, 3),
        }
    }
}

/// Why a request was refused or a native call failed.
///
/// The texts are fixed; the values that belong to them stand beside them.
#[allow(inconsistent_fields)]
#[derive(Clone, Copy, Debug, PartialEq, Eq)]
pub enum Error {
    /// A condition of the operation does not hold; the text says which.
    Other(&'static str),
    /// As `Other`, with the number that broke the condition.
    Number(&'static str, i64),
    /// Two operand types that the operation does not accept together.
    Operands(&'static str, DType, DType),
    /// As `Operands`, with the type of a bias.
    BiasOperands(&'static str, DType, DType, DType),
    /// Two operands whose shapes do not go together.
    Shapes { text: &'static str, left: Shape, right: Shape },
    /// As `Shapes`, with the shape of a bias.
    BiasShapes { text: &'static str, left: Shape, right: Shape, bias: Shape },
    /// An operand of the wrong element type or shape.
    Operand { text: &'static str, dtype: DType, shape: Shape },
    /// A shape that a shared check refused for the named operation.
    Dimensions { operation: &'static str, problem: &'static str, shape: Shape },
    /// An operand lives on another device than the context.
    DeviceMismatch { expected: Device, got: Device },
    /// An operand has another element type than the operation asks.
    DTypeMismatch { expected: DType, got: DType },
    /// A buffer lives on another CUDA device than the context.
    BufferDevice { operation: &'static str, name: &'static str, expected: usize, got: usize },
    /// A buffer is shorter than the operation needs.
    BufferLength { operation: &'static str, name: &'static str, required: usize, got: usize },
    /// A device address span is on another device or too short.
    Address {
        operation: &'static str,
        name: &'static str,
        required: usize,
        expected: usize,
        len: usize,
        device: usize,
    },
    /// An element type that the operation does not support.
    UnsupportedDType { operation: &'static str, dtype: DType },
    /// A condition of a shared check failed for the named operation.
    Operation { operation: &'static str, problem: &'static str },
    /// A native call returned a non-zero status.
    Native { call: &'static str, status: i32 },
}

impl Error {
    /// The fixed text that says what went wrong.
    pub open spec fn text(self) -> &'static str {
        match self {
            Error::Other(text) => text,
            Error::Number(text, _) => text,
            Error::Operands(text, _, _) => text,
            Error::BiasOperands(text, _, _, _) => text,
            Error::Shapes { text, .. } => text,
            Error::BiasShapes { text, .. } => text,
            Error::Operand { text, .. } => text,
            Error::Dimensions { problem, .. } => problem,
            Error::DeviceMismatch { .. } => "device mismatch",
            Error::DTypeMismatch { .. } => "element type mismatch",
            Error::BufferDevice { .. } => "buffer is on another CUDA device",
            Error::BufferLength { .. } => "buffer is too short",
            Error::Address { .. } => "device address is on another device or too short",
            Error::UnsupportedDType { .. } => "unsupported element type",
            Error::Operation { problem, .. } => problem,
            Error::Native { .. } => "native call failed",
        }
    }

    /// The fixed text that says what went wrong.
    pub fn message(&self) -> (text: &'static str)
        ensures
            text == self.text(),
    {
        match self {
            Error::Other(text) => text,
            Error::Number(text, _) => text,
            Error::Operands(text, _, _) => text,
            Error::BiasOperands(text, _, _, _) => text,
            Error::Shapes { text, .. } => text,
            Error::BiasShapes { text, .. } => text,
            Error::Operand { text, .. } => text,
            Error::Dimensions { problem, .. } => problem,
            Error::DeviceMismatch { .. } => "device mismatch",
            Error::DTypeMismatch { .. } => "element type mismatch",
            Error::BufferDevice { .. } => "buffer is on another CUDA device",
            Error::BufferLength { .. } => "buffer is too short",
            Error::Address { .. } => "device address is on another device or too short",
            Error::UnsupportedDType { .. } => "unsupported element type",
            Error::Operation { problem, .. } => problem,
            Error::Native { .. } => "native call failed",
        }
    }
}

} // verus!
