//! Shared validation of caller-owned kernel buffers.

use crate::context::CudaContext;
use crate::error::{shape_of, Error, Shape};
use crate::types::{dtype_size, CudaBuffer, CudaDeviceAddress, DType, Device, Tensor};
use vstd::prelude::*;

verus! {

/// The first of two problems.
pub open spec fn first_of(first: Option<Error>, second: Option<Error>) -> Option<Error> {
    match first {
        Some(error) => Some(error),
        None => second,
    }
}

/// A problem, or the value.
pub open spec fn unless<T>(problem: Option<Error>, value: T) -> Result<T, Error> {
    match problem {
        Some(error) => Err(error),
        None => Ok(value),
    }
}

/// The product of some extents.
pub open spec fn product(dims: Seq<usize>) -> nat
    decreases dims.len(),
{
    if dims.len() == 0 {
        1
    } else {
        product(dims.drop_last()) * dims.last() as nat
    }
}

/// Element types that caller-owned operations accept.
pub open spec fn is_floating(dtype: DType) -> bool {
    dtype == DType::F32 || dtype == DType::F16 || dtype == DType::BF16
}

pub const NON_ZERO: &'static str = "dimensions must be non-zero";

pub const BYTE_OVERFLOW: &'static str = "byte size overflow";

/// The size of a dense block, or why it has none.
pub open spec fn byte_size(dtype: DType, dims: Seq<usize>, operation: &'static str) -> Result<
    usize,
    Error,
> {
    if !is_floating(dtype) {
        Err(Error::UnsupportedDType { operation, dtype })
    } else if exists|i: int| 0 <= i < dims.len() && #[trigger] dims[i] == 0 {
        Err(Error::Dimensions { operation, problem: NON_ZERO, shape: shape_of(dims) })
    } else if product(dims) * dtype_size(dtype) > usize::MAX {
        Err(Error::Operation { operation, problem: BYTE_OVERFLOW })
    } else {
        Ok((product(dims) * dtype_size(dtype)) as usize)
    }
}

proof fn lemma_product_grows(dims: Seq<usize>, i: int)
    requires
        0 <= i <= dims.len(),
        forall|j: int| 0 <= j < dims.len() ==> #[trigger] dims[j] != 0,
    ensures
        1 <= product(dims.take(i)) <= product(dims),
    decreases dims.len(),
{
    if dims.len() == 0 {
        assert(dims.take(i) =~= dims);
    } else if i == dims.len() {
        lemma_product_grows(dims.drop_last(), i - 1);
        assert(dims.take(i) =~= dims);
        assert(dims.drop_last().take(i - 1) =~= dims.drop_last());
        let p = product(dims.drop_last());
        let d = dims.last() as nat;
        assert(p * d >= 1) by (nonlinear_arith)
            requires
                p >= 1,
                d >= 1,
        ;
    } else {
        lemma_product_grows(dims.drop_last(), i);
        assert(dims.drop_last().take(i) =~= dims.take(i));
        let p = product(dims.drop_last());
        let d = dims.last() as nat;
        assert(p * d >= p) by (nonlinear_arith)
            requires
                p >= 1,
                d >= 1,
        ;
    }
}

/// The size in bytes of a dense block with the given extents.
pub fn checked_bytes(dtype: DType, dims: &[usize], operation: &'static str) -> (result: Result<
    usize,
    Error,
>)
    ensures
        result == byte_size(dtype, dims@, operation),
{
    match dtype {
        DType::F32 | DType::F16 | DType::BF16 => {},
        _ => {
            return Err(Error::UnsupportedDType { operation, dtype });
        },
    }
    let mut i: usize = 0;
    while i < dims.len()
        invariant
            i <= dims@.len(),
            is_floating(dtype),
            forall|j: int| 0 <= j < i ==> #[trigger] dims@[j] != 0,
        decreases dims.len() - i,
    {
        if dims[i] == 0 {
            assert(dims@[i as int] == 0);
            return Err(
                Error::Dimensions { operation, problem: NON_ZERO, shape: Shape::of(dims) },
            );
        }
        i = i + 1;
    }
    let size: usize = dtype.size_in_bytes();
    let mut bytes: usize = size;
    let mut i: usize = 0;
    assert(dims@.take(0) =~= Seq::<usize>::empty());
    while i < dims.len()
        invariant
            i <= dims@.len(),
            is_floating(dtype),
            size == dtype_size(dtype),
            size >= 1,
            forall|j: int| 0 <= j < dims@.len() ==> #[trigger] dims@[j] != 0,
            bytes == product(dims@.take(i as int)) * size,
        decreases dims.len() - i,
    {
        proof {
            let p = product(dims@.take(i as int));
            let d = dims@[i as int] as nat;
            assert(dims@.take(i + 1).drop_last() =~= dims@.take(i as int));
            assert(product(dims@.take(i + 1)) == p * d);
            assert(p * size as nat * d == p * d * size as nat) by (nonlinear_arith);
            lemma_product_grows(dims@, i + 1);
            let q = product(dims@.take(i + 1));
            let total = product(dims@);
            assert(q * size as nat <= total * size as nat) by (nonlinear_arith)
                requires
                    q <= total,
            ;
        }
        match bytes.checked_mul(dims[i]) {
            Some(value) => {
                bytes = value;
            },
            None => {
                return Err(Error::Operation { operation, problem: BYTE_OVERFLOW });
            },
        }
        i = i + 1;
    }
    assert(dims@.take(i as int) =~= dims@);
    Ok(bytes)
}

/// What is wrong with a buffer that has to hold `required` bytes on `device`.
pub open spec fn buffer_problem(
    device: usize,
    operation: &'static str,
    name: &'static str,
    buffer: CudaBuffer,
    required: int,
) -> Option<Error> {
    if buffer.device != device {
        Some(Error::BufferDevice { operation, name, expected: device, got: buffer.device })
    } else if buffer.len < required {
        Some(
            Error::BufferLength { operation, name, required: required as usize, got: buffer.len },
        )
    } else {
        None
    }
}

/// Ask for a buffer of `required` bytes on the context's device.
pub fn require_buffer(
    ctx: &CudaContext,
    operation: &'static str,
    name: &'static str,
    buffer: &CudaBuffer,
    required: usize,
) -> (result: Result<(), Error>)
    ensures
        result == unless(
            buffer_problem(ctx.device_id, operation, name, *buffer, required as int),
            (),
        ),
{
    if buffer.device != ctx.device_id {
        return Err(
            Error::BufferDevice { operation, name, expected: ctx.device_id, got: buffer.device },
        );
    }
    if buffer.len < required {
        return Err(Error::BufferLength { operation, name, required, got: buffer.len });
    }
    Ok(())
}

pub open spec fn address_problem(
    device: usize,
    operation: &'static str,
    name: &'static str,
    address: CudaDeviceAddress,
    required: int,
) -> Option<Error> {
    if address.device != device || address.len < required {
        Some(
            Error::Address {
                operation,
                name,
                required: required as usize,
                expected: device,
                len: address.len,
                device: address.device,
            },
        )
    } else {
        None
    }
}

/// Ask for an address span of `required` bytes on the context's device.
pub fn require_address(
    ctx: &CudaContext,
    operation: &'static str,
    name: &'static str,
    address: CudaDeviceAddress,
    required: usize,
) -> (result: Result<(), Error>)
    ensures
        result == unless(
            address_problem(ctx.device_id, operation, name, address, required as int),
            (),
        ),
{
    if address.device != ctx.device_id || address.len < required {
        return Err(
            Error::Address {
                operation,
                name,
                required,
                expected: ctx.device_id,
                len: address.len,
                device: address.device,
            },
        );
    }
    Ok(())
}

/// Whether the bits are those of a finite 32-bit float.
pub open spec fn finite_bits(bits: u32) -> bool {
    bits % 0x8000_0000 < 0x7f80_0000
}

/// Whether the bits are those of a finite 32-bit float above zero.
pub open spec fn positive_bits(bits: u32) -> bool {
    0 < bits < 0x7f80_0000
}

pub const NON_FINITE: &'static str = "received a non-finite scalar";

/// Ask for finite scalars, given by their bits.
pub fn require_finite(operation: &'static str, values: &[u32]) -> (result: Result<(), Error>)
    ensures
        result == (if forall|i: int| 0 <= i < values@.len() ==> finite_bits(#[trigger] values@[i]) {
            Ok::<(), Error>(())
        } else {
            Err(Error::Operation { operation, problem: NON_FINITE })
        }),
        result is Ok <==> forall|i: int|
            0 <= i < values@.len() ==> finite_bits(#[trigger] values@[i]),
{
    let mut i: usize = 0;
    while i < values.len()
        invariant
            i <= values@.len(),
            forall|j: int| 0 <= j < i ==> finite_bits(#[trigger] values@[j]),
        decreases values.len() - i,
    {
        if values[i] % 0x8000_0000 >= 0x7f80_0000 {
            assert(!finite_bits(values@[i as int]));
            return Err(Error::Operation { operation, problem: NON_FINITE });
        }
        i = i + 1;
    }
    Ok(())
}

pub fn is_positive(bits: u32) -> (result: bool)
    ensures
        result == positive_bits(bits),
{
    0 < bits && bits < 0x7f80_0000
}

pub const NOT_2D: &'static str = "expects a 2D tensor";

pub open spec fn matrix_extents(tensor: Tensor, operation: &'static str) -> Result<
    (usize, usize),
    Error,
> {
    if tensor.dims@.len() != 2 {
        Err(Error::Dimensions { operation, problem: NOT_2D, shape: shape_of(tensor.dims@) })
    } else {
        Ok((tensor.dims@[0], tensor.dims@[1]))
    }
}

/// The rows and columns of a matrix.
pub fn matrix_shape(tensor: &Tensor, operation: &'static str) -> (result: Result<
    (usize, usize),
    Error,
>)
    ensures
        result == matrix_extents(*tensor, operation),
{
    if tensor.dims.len() != 2 {
        return Err(
            Error::Dimensions {
                operation,
                problem: NOT_2D,
                shape: Shape::of(tensor.dims.as_slice()),
            },
        );
    }
    Ok((tensor.dims[0], tensor.dims[1]))
}

/// The size of a matrix with elements of `width` bytes, or the overflow.
pub open spec fn matrix_bytes(rows: usize, cols: usize, width: usize, text: &'static str) -> Result<
    usize,
    Error,
> {
    if rows * cols * width <= usize::MAX {
        Ok((rows * cols * width) as usize)
    } else {
        Err(Error::Other(text))
    }
}

/// The size of a matrix with elements of `width` bytes.
pub fn checked_matrix_bytes(rows: usize, cols: usize, width: usize, text: &'static str) -> (result:
    Result<usize, Error>)
    requires
        width >= 1,
    ensures
        result == matrix_bytes(rows, cols, width, text),
{
    match rows.checked_mul(cols) {
        Some(elements) => match elements.checked_mul(width) {
            Some(bytes) => Ok(bytes),
            None => Err(Error::Other(text)),
        },
        None => {
            proof {
                let p = rows * cols;
                assert(p * width >= p) by (nonlinear_arith)
                    requires
                        p >= 0,
                        width >= 1,
                ;
            }
            Err(Error::Other(text))
        },
    }
}

/// What is wrong with a tensor that has to live on `expected`.
pub open spec fn device_problem(expected: Device, got: Device) -> Option<Error> {
    if got != expected {
        Some(Error::DeviceMismatch { expected, got })
    } else {
        None
    }
}

/// Ask for a tensor on the context's device.
pub fn require_device(ctx: &CudaContext, got: Device) -> (result: Result<(), Error>)
    ensures
        result == unless(device_problem(Device::Cuda(ctx.device_id), got), ()),
{
    let expected = Device::Cuda(ctx.device_id);
    if got != expected {
        return Err(Error::DeviceMismatch { expected, got });
    }
    Ok(())
}

/// Whether two lists of extents are the same.
pub fn same_dims(a: &Vec<usize>, b: &Vec<usize>) -> (result: bool)
    ensures
        result == (a@ == b@),
{
    if a.len() != b.len() {
        return false;
    }
    let mut i: usize = 0;
    while i < a.len()
        invariant
            i <= a.len(),
            a.len() == b.len(),
            forall|j: int| 0 <= j < i ==> a@[j] == b@[j],
        decreases a.len() - i,
    {
        if a[i] != b[i] {
            return false;
        }
        i = i + 1;
    }
    assert(a@ =~= b@);
    true
}

/// The first `count` results, or the first error among them.
pub open spec fn collected<T>(results: spec_fn(int) -> Result<T, Error>, count: int) -> Result<
    Seq<T>,
    Error,
>
    decreases count,
{
    if count <= 0 {
        Ok(Seq::empty())
    } else {
        match collected(results, count - 1) {
            Err(error) => Err(error),
            Ok(before) => match results(count - 1) {
                Err(error) => Err(error),
                Ok(value) => Ok(before.push(value)),
            },
        }
    }
}

/// The first error is the one that is reported.
pub proof fn lemma_collected_error<T>(
    results: spec_fn(int) -> Result<T, Error>,
    at: int,
    count: int,
)
    requires
        0 <= at < count,
        collected(results, at) is Ok,
        results(at) is Err,
    ensures
        collected(results, count) == Err::<Seq<T>, Error>(results(at)->Err_0),
    decreases count - at,
{
    if at + 1 < count {
        lemma_collected_error(results, at, count - 1);
    }
}

/// Where every result is a value, all of them are collected.
pub proof fn lemma_collected_values<T>(results: spec_fn(int) -> Result<T, Error>, count: int)
    requires
        forall|i: int| 0 <= i < count ==> (#[trigger] results(i)) is Ok,
    ensures
        collected(results, count) is Ok,
    decreases count,
{
    if count > 0 {
        lemma_collected_values(results, count - 1);
        assert(results(count - 1) is Ok);
    }
}

/// What was collected are the results, each in its place.
pub proof fn lemma_collected_places<T>(results: spec_fn(int) -> Result<T, Error>, count: int, i: int)
    requires
        0 <= i < count,
        collected(results, count) is Ok,
    ensures
        collected(results, count)->Ok_0.len() == count,
        results(i) == Ok::<T, Error>(collected(results, count)->Ok_0[i]),
    decreases count,
{
    if i < count - 1 {
        lemma_collected_places(results, count - 1, i);
    } else if count > 1 {
        lemma_collected_places(results, count - 1, 0);
    }
}

/// A matrix that is allocated for a result.
#[derive(Clone, Copy, Debug, PartialEq, Eq, Structural)]
pub struct MatrixOutput {
    pub dtype: DType,
    pub rows: usize,
    pub cols: usize,
    pub bytes: usize,
}

pub open spec fn matrix_output(dtype: DType, rows: usize, cols: usize) -> MatrixOutput {
    MatrixOutput { dtype, rows, cols, bytes: (rows * cols * dtype_size(dtype)) as usize }
}

/// What is wrong with a BF16 or FP16 result of the given extents.
pub open spec fn output_problem(dtype: DType, rows: int, cols: int) -> Option<Error> {
    if rows * cols * 2 > usize::MAX {
        Some(
            Error::Other(
                if dtype == DType::BF16 {
                    "BF16 output size overflow"
                } else {
                    "FP16 output size overflow"
                },
            ),
        )
    } else {
        None
    }
}

/// A BF16 or FP16 result of the given extents.
pub fn allocate_matrix(dtype: DType, rows: usize, cols: usize) -> (result: Result<
    MatrixOutput,
    Error,
>)
    requires
        dtype == DType::BF16 || dtype == DType::F16,
    ensures
        result == unless(
            output_problem(dtype, rows as int, cols as int),
            matrix_output(dtype, rows, cols),
        ),
{
    let bytes: usize = if dtype == DType::BF16 {
        bf16_output(rows, cols)?
    } else {
        f16_output(rows, cols)?
    };
    Ok(MatrixOutput { dtype, rows, cols, bytes })
}

pub const NOT_RESIDENT: &'static str = "tensor is not resident on a CUDA device";

/// What is wrong with a tensor that has to be in device memory.
pub open spec fn pointer_problem(tensor: Tensor) -> Option<Error> {
    if tensor.device == Device::Cpu {
        Some(Error::Other(NOT_RESIDENT))
    } else {
        None
    }
}

/// The device address of a tensor.
pub fn gpu_ptr(tensor: &Tensor) -> (result: Result<usize, Error>)
    ensures
        result == unless(pointer_problem(*tensor), tensor.buffer.address),
{
    if tensor.device == Device::Cpu {
        return Err(Error::Other(NOT_RESIDENT));
    }
    Ok(tensor.buffer.address)
}

pub open spec fn optional_problem(tensor: Option<&Tensor>) -> Option<Error> {
    match tensor {
        Some(tensor) => pointer_problem(*tensor),
        None => None,
    }
}

pub open spec fn optional_address(tensor: Option<&Tensor>) -> usize {
    match tensor {
        Some(tensor) => tensor.buffer.address,
        None => 0,
    }
}

/// The device address of a tensor, zero where there is none.
pub fn optional_ptr(tensor: Option<&Tensor>) -> (result: Result<usize, Error>)
    ensures
        result == unless(optional_problem(tensor), optional_address(tensor)),
{
    match tensor {
        Some(tensor) => gpu_ptr(tensor),
        None => Ok(0),
    }
}

/// What is wrong with the device addresses of three tensors.
pub open spec fn pointers_problem(a: Tensor, b: Tensor, c: Tensor) -> Option<Error> {
    first_of(pointer_problem(a), first_of(pointer_problem(b), pointer_problem(c)))
}

/// Whether every leading product of some extents is a machine word.
pub open spec fn extents_fit(dims: Seq<usize>) -> bool {
    forall|i: int| 0 <= i <= dims.len() ==> product(#[trigger] dims.take(i)) <= usize::MAX
}

/// Whether the size of a tensor is a machine word.
pub open spec fn tensor_fits(tensor: Tensor) -> bool {
    extents_fit(tensor.dims@) && tensor_size(tensor) <= usize::MAX
}

/// The size of a tensor in bytes.
pub open spec fn tensor_size(tensor: Tensor) -> int {
    product(tensor.dims@) * dtype_size(tensor.dtype)
}

/// The number of elements of a tensor.
pub fn numel(tensor: &Tensor) -> (count: usize)
    requires
        extents_fit(tensor.dims@),
    ensures
        count == product(tensor.dims@),
{
    let dims = &tensor.dims;
    let mut count: usize = 1;
    let mut i: usize = 0;
    assert(dims@.take(0) =~= Seq::<usize>::empty());
    while i < dims.len()
        invariant
            i <= dims.len(),
            extents_fit(dims@),
            count == product(dims@.take(i as int)),
        decreases dims.len() - i,
    {
        assert(dims@.take(i + 1).drop_last() =~= dims@.take(i as int));
        assert(product(dims@.take(i + 1)) <= usize::MAX);
        count = count * dims[i];
        i = i + 1;
    }
    assert(dims@.take(i as int) =~= dims@);
    count
}

/// The size of a tensor in bytes.
pub fn tensor_bytes(tensor: &Tensor) -> (bytes: usize)
    requires
        tensor_fits(*tensor),
    ensures
        bytes == tensor_size(*tensor),
{
    numel(tensor) * tensor.dtype.size_in_bytes()
}

/// The product of three extents.
pub proof fn lemma_product3(dims: Seq<usize>)
    requires
        dims.len() == 3,
    ensures
        product(dims) == dims[0] * dims[1] * dims[2],
        product(dims.take(2)) == dims[0] * dims[1],
        product(dims.take(1)) == dims[0],
{
    reveal_with_fuel(product, 4);
    assert(dims.drop_last() =~= dims.take(2));
    assert(dims.take(2).drop_last() =~= dims.take(1));
    assert(dims.take(1).drop_last() =~= Seq::<usize>::empty());
    assert(dims.drop_last().drop_last() =~= dims.take(1));
    assert(product(dims.take(1)) == 1 * dims[0]);
    assert(product(dims.take(2)) == product(dims.take(1)) * dims[1] as nat);
}

/// The size of a BF16 result.
pub fn bf16_output(rows: usize, cols: usize) -> (result: Result<usize, Error>)
    ensures
        result == matrix_bytes(rows, cols, 2, "BF16 output size overflow"),
{
    checked_matrix_bytes(rows, cols, 2, "BF16 output size overflow")
}

/// The size of an FP16 result.
pub fn f16_output(rows: usize, cols: usize) -> (result: Result<usize, Error>)
    ensures
        result == matrix_bytes(rows, cols, 2, "FP16 output size overflow"),
{
    checked_matrix_bytes(rows, cols, 2, "FP16 output size overflow")
}

/// The size of an FP8 result.
pub fn fp8_output(rows: usize, cols: usize) -> (result: Result<usize, Error>)
    ensures
        result == matrix_bytes(rows, cols, 1, "FP8 output size overflow"),
{
    checked_matrix_bytes(rows, cols, 1, "FP8 output size overflow")
}

} // verus!
