//! Elementwise operator contracts.

use super::contracts::{
    allocate_matrix, buffer_problem, byte_size, checked_bytes, device_problem, first_of, gpu_ptr,
    matrix_extents, matrix_output, matrix_shape, numel, optional_address, optional_problem,
    optional_ptr, output_problem, pointer_problem, product, require_buffer, require_device,
    same_dims, tensor_bytes, tensor_fits, tensor_size, unless, MatrixOutput,
};
use crate::context::CudaContext;
use crate::error::{shape_of, Error, Shape};
use crate::types::{dtype_size, CudaBuffer, DType, Device, Tensor};
use std::collections::HashSet;
use vstd::prelude::*;

verus! {

#[derive(Clone, Copy, Debug, PartialEq, Eq, Structural)]
pub enum BinaryOp {
    Add,
    Multiply,
}

/// `apxinf_add_*` or `apxinf_mul_*` over `count` elements of type `dtype`.
#[derive(Clone, Copy, Debug, PartialEq, Eq, Structural)]
pub struct BinaryLaunch {
    pub op: BinaryOp,
    pub dtype: DType,
    pub a: usize,
    pub b: usize,
    pub output: usize,
    pub count: u32,
}

/// Whether the elementwise kernels cover an element type.
pub open spec fn covered(dtype: DType) -> bool {
    dtype == DType::F32 || dtype == DType::BF16
}

pub open spec fn dtype_problem(operation: &'static str, dtype: DType) -> Option<Error> {
    if covered(dtype) {
        None
    } else {
        Some(Error::UnsupportedDType { operation, dtype })
    }
}

fn require_dtype(operation: &'static str, dtype: DType) -> (result: Result<(), Error>)
    ensures
        result == unless(dtype_problem(operation, dtype), ()),
{
    if dtype == DType::F32 || dtype == DType::BF16 {
        return Ok(());
    }
    Err(Error::UnsupportedDType { operation, dtype })
}

pub open spec fn binary_into_problem(
    ctx: CudaContext,
    operation: &'static str,
    dtype: DType,
    a: CudaBuffer,
    b: CudaBuffer,
    output: CudaBuffer,
    count: usize,
) -> Option<Error> {
    match byte_size(dtype, seq![count], operation) {
        Err(error) => Some(error),
        Ok(bytes) => first_of(
            buffer_problem(ctx.device_id, operation, "A", a, bytes as int),
            first_of(
                buffer_problem(ctx.device_id, operation, "B", b, bytes as int),
                first_of(
                    buffer_problem(ctx.device_id, operation, "output", output, bytes as int),
                    dtype_problem(operation, dtype),
                ),
            ),
        ),
    }
}

fn binary_into(
    ctx: &CudaContext,
    operation: &'static str,
    op: BinaryOp,
    dtype: DType,
    a: &CudaBuffer,
    b: &CudaBuffer,
    output: &CudaBuffer,
    count: usize,
) -> (result: Result<BinaryLaunch, Error>)
    ensures
        result == unless(
            binary_into_problem(*ctx, operation, dtype, *a, *b, *output, count),
            BinaryLaunch {
                op,
                dtype,
                a: a.address,
                b: b.address,
                output: output.address,
                count: count as u32,
            },
        ),
{
    let dims: Vec<usize> = vec![count];
    assert(dims@ =~= seq![count]);
    let bytes: usize = checked_bytes(dtype, dims.as_slice(), operation)?;
    require_buffer(ctx, operation, "A", a, bytes)?;
    require_buffer(ctx, operation, "B", b, bytes)?;
    require_buffer(ctx, operation, "output", output, bytes)?;
    require_dtype(operation, dtype)?;
    Ok(
        BinaryLaunch {
            op,
            dtype,
            a: a.address,
            b: b.address,
            output: output.address,
            count: count as u32,
        },
    )
}

/// Sum of two caller-owned buffers.
pub fn add_into(
    ctx: &CudaContext,
    dtype: DType,
    a: &CudaBuffer,
    b: &CudaBuffer,
    output: &CudaBuffer,
    count: usize,
) -> (result: Result<BinaryLaunch, Error>)
    ensures
        result == unless(
            binary_into_problem(*ctx, "decode add", dtype, *a, *b, *output, count),
            BinaryLaunch {
                op: BinaryOp::Add,
                dtype,
                a: a.address,
                b: b.address,
                output: output.address,
                count: count as u32,
            },
        ),
{
    binary_into(ctx, "decode add", BinaryOp::Add, dtype, a, b, output, count)
}

/// Product of two caller-owned buffers.
pub fn mul_into(
    ctx: &CudaContext,
    dtype: DType,
    a: &CudaBuffer,
    b: &CudaBuffer,
    output: &CudaBuffer,
    count: usize,
) -> (result: Result<BinaryLaunch, Error>)
    ensures
        result == unless(
            binary_into_problem(*ctx, "decode multiply", dtype, *a, *b, *output, count),
            BinaryLaunch {
                op: BinaryOp::Multiply,
                dtype,
                a: a.address,
                b: b.address,
                output: output.address,
                count: count as u32,
            },
        ),
{
    binary_into(ctx, "decode multiply", BinaryOp::Multiply, dtype, a, b, output, count)
}

/// `apxinf_add_bias_bf16`: a bias over the rows of a matrix. The output has the
/// input's shape.
#[derive(Clone, Copy, Debug, PartialEq, Eq, Structural)]
pub struct AddBiasLaunch {
    pub input: usize,
    pub bias: usize,
    pub cols: u32,
    pub rows: u32,
    pub output_bytes: usize,
}

pub const ADD_BIAS_DTYPE: &'static str = "add_bias: only BF16 supported";

/// The rows of a tensor that is read as rows of its last extent.
pub open spec fn bias_rows(dims: Seq<usize>) -> usize {
    if dims.len() == 1 {
        1
    } else {
        dims[0]
    }
}

/// Broadcast-add a bias vector `[cols]` over rows of `input` `[rows, cols]`.
/// BF16 only.
pub fn add_bias(input: &Tensor, bias: &Tensor) -> (result: Result<AddBiasLaunch, Error>)
    requires
        input.dtype == DType::BF16 ==> input.dims@.len() >= 1 && tensor_fits(*input),
    ensures
        result == unless(
            if input.dtype != DType::BF16 {
                Some(Error::Other(ADD_BIAS_DTYPE))
            } else {
                first_of(pointer_problem(*input), pointer_problem(*bias))
            },
            AddBiasLaunch {
                input: input.buffer.address,
                bias: bias.buffer.address,
                cols: input.dims@.last() as u32,
                rows: bias_rows(input.dims@) as u32,
                output_bytes: tensor_size(*input) as usize,
            },
        ),
{
    if input.dtype != DType::BF16 {
        return Err(Error::Other(ADD_BIAS_DTYPE));
    }
    let rows: usize = if input.dims.len() == 1 {
        1
    } else {
        input.dims[0]
    };
    let cols: usize = input.dims[input.dims.len() - 1];
    let source: usize = gpu_ptr(input)?;
    let values: usize = gpu_ptr(bias)?;
    Ok(
        AddBiasLaunch {
            input: source,
            bias: values,
            cols: cols as u32,
            rows: rows as u32,
            output_bytes: tensor_bytes(input),
        },
    )
}

/// A binary operation on tensors. The output has the first operand's shape and
/// element type.
#[derive(Clone, Copy, Debug, PartialEq, Eq, Structural)]
pub struct TensorBinary {
    pub op: BinaryOp,
    pub dtype: DType,
    pub a: usize,
    pub b: usize,
    pub count: u32,
    pub output_bytes: usize,
}

pub open spec fn binary_problem(operation: &'static str, a: Tensor, b: Tensor) -> Option<Error> {
    first_of(
        dtype_problem(operation, a.dtype),
        first_of(pointer_problem(a), pointer_problem(b)),
    )
}

pub open spec fn tensor_binary(op: BinaryOp, a: Tensor, b: Tensor) -> TensorBinary {
    TensorBinary {
        op,
        dtype: a.dtype,
        a: a.buffer.address,
        b: b.buffer.address,
        count: product(a.dims@) as u32,
        output_bytes: tensor_size(a) as usize,
    }
}

fn binary(operation: &'static str, op: BinaryOp, a: &Tensor, b: &Tensor) -> (result: Result<
    TensorBinary,
    Error,
>)
    requires
        tensor_fits(*a),
    ensures
        result == unless(binary_problem(operation, *a, *b), tensor_binary(op, *a, *b)),
{
    require_dtype(operation, a.dtype)?;
    let first: usize = gpu_ptr(a)?;
    let second: usize = gpu_ptr(b)?;
    Ok(
        TensorBinary {
            op,
            dtype: a.dtype,
            a: first,
            b: second,
            count: numel(a) as u32,
            output_bytes: tensor_bytes(a),
        },
    )
}

/// Element-wise sum.
pub fn add(a: &Tensor, b: &Tensor) -> (result: Result<TensorBinary, Error>)
    requires
        tensor_fits(*a),
    ensures
        result == unless(binary_problem("add", *a, *b), tensor_binary(BinaryOp::Add, *a, *b)),
{
    binary("add", BinaryOp::Add, a, b)
}

/// Element-wise product.
pub fn mul(a: &Tensor, b: &Tensor) -> (result: Result<TensorBinary, Error>)
    requires
        tensor_fits(*a),
    ensures
        result == unless(binary_problem("mul", *a, *b), tensor_binary(BinaryOp::Multiply, *a, *b)),
{
    binary("mul", BinaryOp::Multiply, a, b)
}

/// A scalar factor: the bits of a 32-bit float, or one over a square root.
#[derive(Clone, Copy, Debug, PartialEq, Eq, Structural)]
pub enum Factor {
    Real(u32),
    InverseRoot(usize),
}

/// `apxinf_scale_*`: every element times a factor. The output has the input's
/// shape and element type.
#[derive(Clone, Copy, Debug, PartialEq, Eq, Structural)]
pub struct ScaleLaunch {
    pub dtype: DType,
    pub input: usize,
    pub count: u32,
    pub factor: Factor,
    pub output_bytes: usize,
}

pub open spec fn scale_launch(input: Tensor, factor: Factor) -> ScaleLaunch {
    ScaleLaunch {
        dtype: input.dtype,
        input: input.buffer.address,
        count: product(input.dims@) as u32,
        factor,
        output_bytes: tensor_size(input) as usize,
    }
}

/// Multiply every element by a scalar.
pub fn scale(input: &Tensor, factor: Factor) -> (result: Result<ScaleLaunch, Error>)
    requires
        tensor_fits(*input),
    ensures
        result == unless(
            first_of(dtype_problem("scale", input.dtype), pointer_problem(*input)),
            scale_launch(*input, factor),
        ),
{
    require_dtype("scale", input.dtype)?;
    let source: usize = gpu_ptr(input)?;
    Ok(
        ScaleLaunch {
            dtype: input.dtype,
            input: source,
            count: numel(input) as u32,
            factor,
            output_bytes: tensor_bytes(input),
        },
    )
}

/// `apxinf_static_bias_qkv_in_place_bf16`.
#[derive(Clone, Copy, Debug, PartialEq, Eq, Structural)]
pub struct BiasQkvLaunch {
    pub query: usize,
    pub key: usize,
    pub value: usize,
    pub query_bias: usize,
    pub key_bias: usize,
    pub value_bias: usize,
    pub rows: i32,
    pub cols: i32,
}

pub const BIAS_QKV_MATRIX: &'static str =
    "fused QKV bias operand must be a CUDA BF16 matrix of the query's shape";

pub const BIAS_QKV_VECTOR: &'static str =
    "fused QKV bias must be a CUDA BF16 vector of the query's width";

pub const BIAS_QKV_WIDTH: &'static str = "fused QKV bias width must be divisible by 4";

/// What is wrong with an operand that has to be BF16 of given extents on a
/// device.
pub open spec fn operand_problem(
    name: &'static str,
    problem: &'static str,
    tensor: Tensor,
    device: Device,
    dims: Seq<usize>,
) -> Option<Error> {
    if tensor.dtype != DType::BF16 || tensor.device != device || tensor.dims@ != dims {
        Some(Error::Operation { operation: name, problem })
    } else {
        None
    }
}

fn require_operand(
    name: &'static str,
    problem: &'static str,
    tensor: &Tensor,
    device: Device,
    dims: &Vec<usize>,
) -> (result: Result<(), Error>)
    ensures
        result == unless(operand_problem(name, problem, *tensor, device, dims@), ()),
{
    if tensor.dtype != DType::BF16 || tensor.device != device || !same_dims(&tensor.dims, dims) {
        return Err(Error::Operation { operation: name, problem });
    }
    Ok(())
}

pub open spec fn bias_qkv_problem(
    ctx: CudaContext,
    query: Tensor,
    key: Tensor,
    value: Tensor,
    query_bias: Tensor,
    key_bias: Tensor,
    value_bias: Tensor,
) -> Option<Error> {
    match matrix_extents(query, "fused QKV bias") {
        Err(error) => Some(error),
        Ok((rows, cols)) => {
            let device = Device::Cuda(ctx.device_id);
            let matrix = seq![rows, cols];
            let vector = seq![cols];
            first_of(
                operand_problem("query", BIAS_QKV_MATRIX, query, device, matrix),
                first_of(
                    operand_problem("key", BIAS_QKV_MATRIX, key, device, matrix),
                    first_of(
                        operand_problem("value", BIAS_QKV_MATRIX, value, device, matrix),
                        first_of(
                            operand_problem(
                                "query bias",
                                BIAS_QKV_VECTOR,
                                query_bias,
                                device,
                                vector,
                            ),
                            first_of(
                                operand_problem(
                                    "key bias",
                                    BIAS_QKV_VECTOR,
                                    key_bias,
                                    device,
                                    vector,
                                ),
                                first_of(
                                    operand_problem(
                                        "value bias",
                                        BIAS_QKV_VECTOR,
                                        value_bias,
                                        device,
                                        vector,
                                    ),
                                    if cols % 4 != 0 {
                                        Some(Error::Other(BIAS_QKV_WIDTH))
                                    } else {
                                        None
                                    },
                                ),
                            ),
                        ),
                    ),
                ),
            )
        },
    }
}

/// Applies three independent BF16 biases to equally-shaped Q/K/V projections in
/// one launch.
pub fn bias_qkv_in_place_bf16(
    ctx: &CudaContext,
    query: &Tensor,
    key: &Tensor,
    value: &Tensor,
    query_bias: &Tensor,
    key_bias: &Tensor,
    value_bias: &Tensor,
) -> (result: Result<BiasQkvLaunch, Error>)
    ensures
        result == unless(
            bias_qkv_problem(*ctx, *query, *key, *value, *query_bias, *key_bias, *value_bias),
            BiasQkvLaunch {
                query: query.buffer.address,
                key: key.buffer.address,
                value: value.buffer.address,
                query_bias: query_bias.buffer.address,
                key_bias: key_bias.buffer.address,
                value_bias: value_bias.buffer.address,
                rows: query.dims@[0] as i32,
                cols: query.dims@[1] as i32,
            },
        ),
{
    let (rows, cols) = matrix_shape(query, "fused QKV bias")?;
    let device = Device::Cuda(ctx.device_id);
    let matrix: Vec<usize> = vec![rows, cols];
    let vector: Vec<usize> = vec![cols];
    assert(matrix@ =~= seq![rows, cols]);
    assert(vector@ =~= seq![cols]);
    require_operand("query", BIAS_QKV_MATRIX, query, device, &matrix)?;
    require_operand("key", BIAS_QKV_MATRIX, key, device, &matrix)?;
    require_operand("value", BIAS_QKV_MATRIX, value, device, &matrix)?;
    require_operand("query bias", BIAS_QKV_VECTOR, query_bias, device, &vector)?;
    require_operand("key bias", BIAS_QKV_VECTOR, key_bias, device, &vector)?;
    require_operand("value bias", BIAS_QKV_VECTOR, value_bias, device, &vector)?;
    if cols % 4 != 0 {
        return Err(Error::Other(BIAS_QKV_WIDTH));
    }
    Ok(
        BiasQkvLaunch {
            query: query.buffer.address,
            key: key.buffer.address,
            value: value.buffer.address,
            query_bias: query_bias.buffer.address,
            key_bias: key_bias.buffer.address,
            value_bias: value_bias.buffer.address,
            rows: rows as i32,
            cols: cols as i32,
        },
    )
}

/// `apxinf_static_concat_rows_*`: the rows of one matrix after those of
/// another.
#[derive(Clone, Copy, Debug, PartialEq, Eq, Structural)]
pub struct ConcatLaunch {
    pub first: usize,
    pub second: usize,
    pub first_rows: i32,
    pub second_rows: i32,
    pub cols: i32,
    pub output: MatrixOutput,
}

pub const CONCAT_BF16: &'static str =
    "static inference BF16 row concatenation requires matrices with equal widths";

pub const CONCAT_F16: &'static str =
    "static inference row concatenation expects FP16 matrices with equal widths";

/// Whether two matrices of a type can be concatenated.
pub open spec fn concat_matches(dtype: DType, first: Tensor, second: Tensor) -> bool {
    &&& first.dims@.len() == 2
    &&& second.dims@.len() == 2
    &&& first.dtype == dtype
    &&& second.dtype == dtype
    &&& first.dims@[1] == second.dims@[1]
}

pub open spec fn concat_problem(dtype: DType, text: &'static str, first: Tensor, second: Tensor) -> Option<
    Error,
> {
    match matrix_extents(first, "row concatenation") {
        Err(error) => Some(error),
        Ok((first_rows, cols)) => match matrix_extents(second, "row concatenation") {
            Err(error) => Some(error),
            Ok((second_rows, _)) => if !concat_matches(dtype, first, second) {
                Some(Error::Other(text))
            } else {
                first_of(
                    output_problem(dtype, first_rows + second_rows, cols as int),
                    first_of(pointer_problem(first), pointer_problem(second)),
                )
            },
        },
    }
}

pub open spec fn concat_launch(dtype: DType, first: Tensor, second: Tensor) -> ConcatLaunch {
    ConcatLaunch {
        first: first.buffer.address,
        second: second.buffer.address,
        first_rows: first.dims@[0] as i32,
        second_rows: second.dims@[0] as i32,
        cols: first.dims@[1] as i32,
        output: matrix_output(
            dtype,
            (first.dims@[0] + second.dims@[0]) as usize,
            first.dims@[1],
        ),
    }
}

fn concat_rows(dtype: DType, text: &'static str, first: &Tensor, second: &Tensor) -> (result: Result<
    ConcatLaunch,
    Error,
>)
    requires
        dtype == DType::BF16 || dtype == DType::F16,
        concat_matches(dtype, *first, *second) ==> first.dims@[0] + second.dims@[0] <= usize::MAX,
    ensures
        result == unless(
            concat_problem(dtype, text, *first, *second),
            concat_launch(dtype, *first, *second),
        ),
{
    let (first_rows, cols) = matrix_shape(first, "row concatenation")?;
    let (second_rows, second_cols) = matrix_shape(second, "row concatenation")?;
    if first.dtype != dtype || second.dtype != dtype || cols != second_cols {
        return Err(Error::Other(text));
    }
    let output = allocate_matrix(dtype, first_rows + second_rows, cols)?;
    let a: usize = gpu_ptr(first)?;
    let b: usize = gpu_ptr(second)?;
    Ok(
        ConcatLaunch {
            first: a,
            second: b,
            first_rows: first_rows as i32,
            second_rows: second_rows as i32,
            cols: cols as i32,
            output,
        },
    )
}

/// The rows of two BF16 matrices, one after the other.
pub fn concat_rows_bf16(first: &Tensor, second: &Tensor) -> (result: Result<ConcatLaunch, Error>)
    requires
        concat_matches(DType::BF16, *first, *second) ==> first.dims@[0] + second.dims@[0]
            <= usize::MAX,
    ensures
        result == unless(
            concat_problem(DType::BF16, CONCAT_BF16, *first, *second),
            concat_launch(DType::BF16, *first, *second),
        ),
{
    concat_rows(DType::BF16, CONCAT_BF16, first, second)
}

/// The rows of two FP16 matrices, one after the other.
pub fn concat_rows_f16(first: &Tensor, second: &Tensor) -> (result: Result<ConcatLaunch, Error>)
    requires
        concat_matches(DType::F16, *first, *second) ==> first.dims@[0] + second.dims@[0]
            <= usize::MAX,
    ensures
        result == unless(
            concat_problem(DType::F16, CONCAT_F16, *first, *second),
            concat_launch(DType::F16, *first, *second),
        ),
{
    concat_rows(DType::F16, CONCAT_F16, first, second)
}

/// Bounds-checked row-selection metadata uploaded once to a CUDA device.
#[derive(Clone, Copy, Debug, PartialEq, Eq, Structural)]
pub struct PreparedRowIndices {
    pub buffer: CudaBuffer,
    pub matrix_rows: usize,
    pub row_count: usize,
    pub unique: bool,
}

pub const INDEX_OVERFLOW: &'static str = "index byte size overflow";

pub const INDEX_ROWS: &'static str = "indices were prepared for another number of rows";

impl PreparedRowIndices {
    pub open spec fn problem(self, ctx: CudaContext, matrix_rows: usize, operation: &'static str) -> Option<
        Error,
    > {
        if self.matrix_rows != matrix_rows {
            Some(Error::Operation { operation, problem: INDEX_ROWS })
        } else if self.row_count * 4 > usize::MAX {
            Some(Error::Operation { operation, problem: INDEX_OVERFLOW })
        } else {
            buffer_problem(
                ctx.device_id,
                operation,
                "row indices",
                self.buffer,
                self.row_count * 4,
            )
        }
    }

    pub fn validate(&self, ctx: &CudaContext, matrix_rows: usize, operation: &'static str) -> (result:
        Result<(), Error>)
        ensures
            result == unless(self.problem(*ctx, matrix_rows, operation), ()),
    {
        if self.matrix_rows != matrix_rows {
            return Err(Error::Operation { operation, problem: INDEX_ROWS });
        }
        let bytes: usize = match self.row_count.checked_mul(4) {
            Some(bytes) => bytes,
            None => {
                return Err(Error::Operation { operation, problem: INDEX_OVERFLOW });
            },
        };
        require_buffer(ctx, operation, "row indices", &self.buffer, bytes)
    }
}

/// Row indices that are ready to be uploaded.
#[derive(Clone, Debug)]
pub struct RowIndices {
    pub indices: Vec<u32>,
    pub matrix_rows: usize,
    pub unique: bool,
}

pub const NO_ROWS: &'static str = "CUDA row selection requires at least one row";

pub const ROW_OUTSIDE: &'static str = "CUDA row index is outside the matrix";

pub const ROW_TOO_LARGE: &'static str = "CUDA row index exceeds u32";

pub const ROW_BYTES: &'static str = "CUDA row-index byte size overflow";

/// What is wrong with the first bad row index.
pub open spec fn rows_problem(rows: Seq<usize>, input_rows: usize) -> Option<Error>
    decreases rows.len(),
{
    if rows.len() == 0 {
        None
    } else if rows[0] >= input_rows {
        Some(Error::Other(ROW_OUTSIDE))
    } else if rows[0] > u32::MAX {
        Some(Error::Other(ROW_TOO_LARGE))
    } else {
        rows_problem(rows.skip(1), input_rows)
    }
}

pub open spec fn indices_problem(rows: Seq<usize>, input_rows: usize) -> Option<Error> {
    if rows.len() == 0 {
        Some(Error::Other(NO_ROWS))
    } else {
        first_of(
            rows_problem(rows, input_rows),
            if rows.len() * 4 > usize::MAX {
                Some(Error::Other(ROW_BYTES))
            } else {
                None
            },
        )
    }
}

/// Whether no row is selected twice.
pub fn rows_are_unique(rows: &[usize]) -> (unique: bool)
    ensures
        unique == rows@.no_duplicates(),
{
    broadcast use vstd::std_specs::hash::group_hash_axioms;

    let mut seen: HashSet<usize> = HashSet::new();
    let mut i: usize = 0;
    while i < rows.len()
        invariant
            i <= rows@.len(),
            forall|j: int| 0 <= j < i ==> seen@.contains(#[trigger] rows@[j]),
            forall|x: usize|
                #[trigger] seen@.contains(x) ==> exists|j: int| 0 <= j < i && rows@[j] == x,
            forall|j: int, l: int| 0 <= j < l < i ==> rows@[j] != rows@[l],
        decreases rows.len() - i,
    {
        let row: usize = rows[i];
        if seen.contains(&row) {
            proof {
                let j = choose|j: int| 0 <= j < i && rows@[j] == row;
                assert(rows@[j] == rows@[i as int]);
                assert(!rows@.no_duplicates());
            }
            return false;
        }
        let ghost before = seen@;
        seen.insert(row);
        proof {
            assert(seen@ =~= before.insert(row));
            assert forall|x: usize| #[trigger] seen@.contains(x) implies exists|j: int|
                0 <= j < i + 1 && rows@[j] == x by {
                if x == row {
                    assert(rows@[i as int] == x);
                } else {
                    assert(before.contains(x));
                }
            }
            assert forall|j: int, l: int| 0 <= j < l < i + 1 implies rows@[j] != rows@[l] by {
                if l == i {
                    assert(before.contains(rows@[j]));
                }
            }
        }
        i = i + 1;
    }
    true
}

/// Check row indices and get them ready for the device.
pub fn prepare_row_indices(rows: &[usize], input_rows: usize) -> (result: Result<RowIndices, Error>)
    ensures
        match indices_problem(rows@, input_rows) {
            Some(error) => result == Err::<RowIndices, Error>(error),
            None => {
                &&& result matches Ok(prepared)
                &&& prepared.indices@ == rows@.map_values(|row: usize| row as u32)
                &&& prepared.matrix_rows == input_rows
                &&& prepared.unique == rows@.no_duplicates()
                &&& forall|i: int|
                    0 <= i < rows@.len() ==> (#[trigger] prepared.indices@[i]) == rows@[i]
                        && prepared.indices@[i] < input_rows
            },
        },
{
    if rows.len() == 0 {
        return Err(Error::Other(NO_ROWS));
    }
    let mut indices: Vec<u32> = Vec::new();
    let mut i: usize = 0;
    assert(rows@.skip(0) =~= rows@);
    while i < rows.len()
        invariant
            i <= rows@.len(),
            rows@.len() > 0,
            indices@.len() == i,
            forall|j: int|
                0 <= j < i ==> (#[trigger] indices@[j]) == rows@[j] && indices@[j] == rows@[j] as u32
                    && rows@[j] < input_rows,
            rows_problem(rows@, input_rows) == rows_problem(rows@.skip(i as int), input_rows),
        decreases rows.len() - i,
    {
        assert(rows@.skip(i as int).skip(1) =~= rows@.skip(i + 1));
        let row: usize = rows[i];
        if row >= input_rows {
            return Err(Error::Other(ROW_OUTSIDE));
        }
        if row > 0xffff_ffff {
            return Err(Error::Other(ROW_TOO_LARGE));
        }
        indices.push(row as u32);
        i = i + 1;
    }
    if indices.len().checked_mul(4).is_none() {
        return Err(Error::Other(ROW_BYTES));
    }
    assert(indices@ =~= rows@.map_values(|row: usize| row as u32));
    Ok(RowIndices { indices, matrix_rows: input_rows, unique: rows_are_unique(rows) })
}

/// `apxinf_static_gather_rows_bf16`.
#[derive(Clone, Copy, Debug, PartialEq, Eq, Structural)]
pub struct GatherLaunch {
    pub input: usize,
    pub indices: usize,
    pub rows: i32,
    pub cols: i32,
    pub output: MatrixOutput,
}

pub const GATHER_MISMATCH: &'static str = "static inference BF16 row gather has incompatible shape";

/// Whether `rows` rows can be gathered from a matrix.
pub open spec fn gather_matches(input: Tensor, rows: usize) -> bool {
    input.dims@.len() == 2 && input.dtype == DType::BF16 && rows != 0 && rows <= input.dims@[0]
}

pub open spec fn gather_problem(ctx: CudaContext, input: Tensor, indices: CudaBuffer, rows: usize) -> Option<
    Error,
> {
    match matrix_extents(input, "row gather") {
        Err(error) => Some(error),
        Ok((_, cols)) => if !gather_matches(input, rows) {
            Some(Error::Other(GATHER_MISMATCH))
        } else {
            first_of(
                buffer_problem(ctx.device_id, "row gather", "indices", indices, rows * 4),
                first_of(
                    output_problem(DType::BF16, rows as int, cols as int),
                    pointer_problem(input),
                ),
            )
        },
    }
}

pub open spec fn gather_launch(input: Tensor, indices: CudaBuffer, rows: usize) -> GatherLaunch {
    GatherLaunch {
        input: input.buffer.address,
        indices: indices.address,
        rows: rows as i32,
        cols: input.dims@[1] as i32,
        output: matrix_output(DType::BF16, rows, input.dims@[1]),
    }
}

/// Gather BF16 rows using a caller-owned device `u32` index buffer.
///
/// This is the low-level path for callers that already keep their row order on
/// the device.
pub fn gather_rows_bf16_device_indices(
    ctx: &CudaContext,
    input: &Tensor,
    indices: &CudaBuffer,
    rows: usize,
) -> (result: Result<GatherLaunch, Error>)
    requires
        gather_matches(*input, rows) ==> rows * 4 <= usize::MAX,
    ensures
        result == unless(
            gather_problem(*ctx, *input, *indices, rows),
            gather_launch(*input, *indices, rows),
        ),
{
    let (input_rows, cols) = matrix_shape(input, "row gather")?;
    if input.dtype != DType::BF16 || rows == 0 || rows > input_rows {
        return Err(Error::Other(GATHER_MISMATCH));
    }
    require_buffer(ctx, "row gather", "indices", indices, rows * 4)?;
    let output = allocate_matrix(DType::BF16, rows, cols)?;
    let source: usize = gpu_ptr(input)?;
    Ok(
        GatherLaunch {
            input: source,
            indices: indices.address,
            rows: rows as i32,
            cols: cols as i32,
            output,
        },
    )
}

pub const GATHER_DTYPE: &'static str = "CUDA row gather requires BF16 input";

pub const PREPARED_GATHER_DTYPE: &'static str = "CUDA prepared row gather requires BF16 input";

/// The row indices for gathering arbitrary rows of a BF16 matrix; once they
/// are uploaded, `gather_rows_bf16_prepared` gathers the rows.
pub fn gather_rows_bf16(input: &Tensor, rows: &[usize]) -> (result: Result<RowIndices, Error>)
    ensures
        match matrix_extents(*input, "row gather") {
            Err(error) => result == Err::<RowIndices, Error>(error),
            Ok((input_rows, _)) => if input.dtype != DType::BF16 {
                result == Err::<RowIndices, Error>(Error::Other(GATHER_DTYPE))
            } else {
                match indices_problem(rows@, input_rows) {
                    Some(error) => result == Err::<RowIndices, Error>(error),
                    None => {
                        &&& result matches Ok(prepared)
                        &&& prepared.indices@ == rows@.map_values(|row: usize| row as u32)
                        &&& prepared.matrix_rows == input_rows
                        &&& prepared.unique == rows@.no_duplicates()
                    },
                }
            },
        },
{
    let (input_rows, _) = matrix_shape(input, "row gather")?;
    if input.dtype != DType::BF16 {
        return Err(Error::Other(GATHER_DTYPE));
    }
    prepare_row_indices(rows, input_rows)
}

pub open spec fn prepared_gather_problem(
    ctx: CudaContext,
    input: Tensor,
    indices: PreparedRowIndices,
) -> Option<Error> {
    match matrix_extents(input, "prepared row gather") {
        Err(error) => Some(error),
        Ok((input_rows, _)) => if input.dtype != DType::BF16 {
            Some(Error::Other(PREPARED_GATHER_DTYPE))
        } else {
            first_of(
                indices.problem(ctx, input_rows, "CUDA prepared row gather"),
                gather_problem(ctx, input, indices.buffer, indices.row_count),
            )
        },
    }
}

/// Gather the rows that were prepared for a matrix.
pub fn gather_rows_bf16_prepared(
    ctx: &CudaContext,
    input: &Tensor,
    indices: &PreparedRowIndices,
) -> (result: Result<GatherLaunch, Error>)
    ensures
        result == unless(
            prepared_gather_problem(*ctx, *input, *indices),
            gather_launch(*input, indices.buffer, indices.row_count),
        ),
{
    let (input_rows, _) = matrix_shape(input, "prepared row gather")?;
    if input.dtype != DType::BF16 {
        return Err(Error::Other(PREPARED_GATHER_DTYPE));
    }
    indices.validate(ctx, input_rows, "CUDA prepared row gather")?;
    gather_rows_bf16_device_indices(ctx, input, &indices.buffer, indices.row_count)
}

pub const SCATTER_MISMATCH: &'static str =
    "CUDA row scatter expects a BF16 source row for every selected row";

pub const SCATTER_UNIQUE: &'static str = "CUDA row scatter requires unique destination rows";

pub const PREPARED_SCATTER_MISMATCH: &'static str =
    "CUDA prepared row scatter expects a BF16 source row for every selected row";

pub const PREPARED_SCATTER_UNIQUE: &'static str =
    "CUDA prepared row scatter requires unique destination rows";

/// Whether a source has one BF16 row for each of `count` selected rows of a
/// destination.
pub open spec fn scatter_matches(destination: Tensor, source: Tensor, count: int) -> bool {
    &&& destination.dtype == DType::BF16
    &&& source.dtype == DType::BF16
    &&& source.dims@[0] == count
    &&& source.dims@[1] == destination.dims@[1]
}

pub open spec fn scatter_request_problem(destination: Tensor, rows: Seq<usize>, source: Tensor) -> Option<
    Error,
> {
    match matrix_extents(destination, "row scatter destination") {
        Err(error) => Some(error),
        Ok((destination_rows, _)) => match matrix_extents(source, "row scatter source") {
            Err(error) => Some(error),
            Ok(_) => if !scatter_matches(destination, source, rows.len() as int) {
                Some(
                    Error::Operand {
                        text: SCATTER_MISMATCH,
                        dtype: source.dtype,
                        shape: shape_of(source.dims@),
                    },
                )
            } else if !rows.no_duplicates() {
                Some(Error::Other(SCATTER_UNIQUE))
            } else {
                indices_problem(rows, destination_rows)
            },
        },
    }
}

/// The row indices for scattering BF16 rows into a copy of `destination`; once
/// they are uploaded, `scatter_rows_bf16_prepared` scatters the rows.
///
/// Row indices must be unique so overwrite and additive modes are deterministic.
pub fn scatter_rows_bf16(destination: &Tensor, rows: &[usize], source: &Tensor) -> (result: Result<
    RowIndices,
    Error,
>)
    ensures
        match scatter_request_problem(*destination, rows@, *source) {
            Some(error) => result == Err::<RowIndices, Error>(error),
            None => {
                &&& result matches Ok(prepared)
                &&& prepared.indices@ == rows@.map_values(|row: usize| row as u32)
                &&& prepared.matrix_rows == destination.dims@[0]
                &&& prepared.unique
                &&& prepared.indices@.no_duplicates()
            },
        },
{
    let (destination_rows, columns) = matrix_shape(destination, "row scatter destination")?;
    let (source_rows, source_columns) = matrix_shape(source, "row scatter source")?;
    if destination.dtype != DType::BF16 || source.dtype != DType::BF16 || source_rows != rows.len()
        || source_columns != columns {
        return Err(
            Error::Operand {
                text: SCATTER_MISMATCH,
                dtype: source.dtype,
                shape: Shape::of(source.dims.as_slice()),
            },
        );
    }
    if !rows_are_unique(rows) {
        return Err(Error::Other(SCATTER_UNIQUE));
    }
    let prepared = prepare_row_indices(rows, destination_rows)?;
    assert(prepared.indices@.no_duplicates()) by {
        assert forall|i: int, j: int|
            0 <= i < prepared.indices@.len() && 0 <= j < prepared.indices@.len() && i
                != j implies prepared.indices@[i] != prepared.indices@[j] by {
            assert(prepared.indices@[i] == rows@[i]);
            assert(prepared.indices@[j] == rows@[j]);
        }
    }
    Ok(prepared)
}

/// The destination is copied to the output, and then
/// `apxinf_static_scatter_rows_bf16` writes or adds the source rows.
#[derive(Clone, Copy, Debug, PartialEq, Eq, Structural)]
pub struct ScatterLaunch {
    pub destination: usize,
    pub destination_bytes: usize,
    pub source: usize,
    pub indices: usize,
    pub count: i32,
    pub width: i32,
    pub add: bool,
    pub output: MatrixOutput,
}

pub const SCATTER_COUNT: &'static str = "CUDA row scatter count exceeds i32";

pub const SCATTER_WIDTH: &'static str = "CUDA row scatter width exceeds i32";

pub open spec fn scatter_problem(
    ctx: CudaContext,
    destination: Tensor,
    indices: PreparedRowIndices,
    source: Tensor,
) -> Option<Error> {
    match matrix_extents(destination, "prepared row scatter destination") {
        Err(error) => Some(error),
        Ok((destination_rows, columns)) => match matrix_extents(
            source,
            "prepared row scatter source",
        ) {
            Err(error) => Some(error),
            Ok(_) => if !scatter_matches(destination, source, indices.row_count as int) {
                Some(
                    Error::Operand {
                        text: PREPARED_SCATTER_MISMATCH,
                        dtype: source.dtype,
                        shape: shape_of(source.dims@),
                    },
                )
            } else {
                let device = Device::Cuda(ctx.device_id);
                first_of(
                    device_problem(device, destination.device),
                    first_of(
                        device_problem(device, source.device),
                        first_of(
                            indices.problem(ctx, destination_rows, "CUDA prepared row scatter"),
                            if !indices.unique {
                                Some(Error::Other(PREPARED_SCATTER_UNIQUE))
                            } else {
                                first_of(
                                    output_problem(
                                        DType::BF16,
                                        destination_rows as int,
                                        columns as int,
                                    ),
                                    if indices.row_count > i32::MAX {
                                        Some(Error::Other(SCATTER_COUNT))
                                    } else if columns > i32::MAX {
                                        Some(Error::Other(SCATTER_WIDTH))
                                    } else {
                                        None
                                    },
                                )
                            },
                        ),
                    ),
                )
            },
        },
    }
}

/// Scatter BF16 source rows into a copy of `destination` on device.
pub fn scatter_rows_bf16_prepared(
    ctx: &CudaContext,
    destination: &Tensor,
    indices: &PreparedRowIndices,
    source: &Tensor,
    add: bool,
) -> (result: Result<ScatterLaunch, Error>)
    ensures
        result == unless(
            scatter_problem(*ctx, *destination, *indices, *source),
            ScatterLaunch {
                destination: destination.buffer.address,
                destination_bytes: (destination.dims@[0] * destination.dims@[1] * 2) as usize,
                source: source.buffer.address,
                indices: indices.buffer.address,
                count: indices.row_count as i32,
                width: destination.dims@[1] as i32,
                add,
                output: matrix_output(DType::BF16, destination.dims@[0], destination.dims@[1]),
            },
        ),
{
    let (destination_rows, columns) = matrix_shape(
        destination,
        "prepared row scatter destination",
    )?;
    let (source_rows, source_columns) = matrix_shape(source, "prepared row scatter source")?;
    if destination.dtype != DType::BF16 || source.dtype != DType::BF16 || source_rows
        != indices.row_count || source_columns != columns {
        return Err(
            Error::Operand {
                text: PREPARED_SCATTER_MISMATCH,
                dtype: source.dtype,
                shape: Shape::of(source.dims.as_slice()),
            },
        );
    }
    require_device(ctx, destination.device)?;
    require_device(ctx, source.device)?;
    indices.validate(ctx, destination_rows, "CUDA prepared row scatter")?;
    if !indices.unique {
        return Err(Error::Other(PREPARED_SCATTER_UNIQUE));
    }
    let output = allocate_matrix(DType::BF16, destination_rows, columns)?;
    if indices.row_count > 0x7fff_ffff {
        return Err(Error::Other(SCATTER_COUNT));
    }
    if columns > 0x7fff_ffff {
        return Err(Error::Other(SCATTER_WIDTH));
    }
    Ok(
        ScatterLaunch {
            destination: destination.buffer.address,
            destination_bytes: output.bytes,
            source: source.buffer.address,
            indices: indices.buffer.address,
            count: indices.row_count as i32,
            width: columns as i32,
            add,
            output,
        },
    )
}

/// What a row of the output holds after a scatter: the source row that was sent
/// there, written or added, or else the destination's row.
pub open spec fn scattered(
    destination: Seq<int>,
    indices: Seq<u32>,
    source: Seq<int>,
    add: bool,
    row: int,
) -> int {
    if exists|i: int| 0 <= i < indices.len() && #[trigger] indices[i] == row {
        let i = choose|i: int| 0 <= i < indices.len() && #[trigger] indices[i] == row;
        if add {
            destination[row] + source[i]
        } else {
            source[i]
        }
    } else {
        destination[row]
    }
}

/// Unique indices make a scatter deterministic: the row that index `i` names
/// takes source row `i` and no other.
pub proof fn lemma_unique_scatter_is_deterministic(
    destination: Seq<int>,
    indices: Seq<u32>,
    source: Seq<int>,
    add: bool,
    i: int,
)
    requires
        indices.no_duplicates(),
        source.len() == indices.len(),
        0 <= i < indices.len(),
    ensures
        scattered(destination, indices, source, add, indices[i] as int) == (if add {
            destination[indices[i] as int] + source[i]
        } else {
            source[i]
        }),
{
    let row = indices[i] as int;
    let j = choose|j: int| 0 <= j < indices.len() && #[trigger] indices[j] == row;
    assert(indices[i] == row);
    assert(indices[j] == row);
    if i != j {
        assert(indices[i] != indices[j]);
    }
}

/// `apxinf_static_replace_rows_bf16`.
#[derive(Clone, Copy, Debug, PartialEq, Eq, Structural)]
pub struct ReplaceLaunch {
    pub base: usize,
    pub replacement: usize,
    pub row_map: usize,
    pub rows: i32,
    pub cols: i32,
    pub output: MatrixOutput,
}

pub const REPLACE_MISMATCH: &'static str =
    "static inference BF16 row replacement has incompatible shape";

/// Whether rows of one matrix can stand for rows of another.
pub open spec fn replace_matches(base: Tensor, replacement: Tensor) -> bool {
    &&& base.dims@.len() == 2
    &&& replacement.dims@.len() == 2
    &&& base.dtype == DType::BF16
    &&& replacement.dtype == DType::BF16
    &&& base.dims@[1] == replacement.dims@[1]
}

pub open spec fn replace_problem(
    ctx: CudaContext,
    base: Tensor,
    replacement: Tensor,
    row_map: CudaBuffer,
) -> Option<Error> {
    match matrix_extents(base, "row replacement") {
        Err(error) => Some(error),
        Ok((rows, cols)) => match matrix_extents(replacement, "row replacement") {
            Err(error) => Some(error),
            Ok(_) => if !replace_matches(base, replacement) {
                Some(Error::Other(REPLACE_MISMATCH))
            } else {
                first_of(
                    buffer_problem(ctx.device_id, "row replacement", "row_map", row_map, rows * 4),
                    first_of(
                        output_problem(DType::BF16, rows as int, cols as int),
                        first_of(pointer_problem(base), pointer_problem(replacement)),
                    ),
                )
            },
        },
    }
}

/// Replace selected rows according to a device `u32` map. `u32::MAX` keeps
/// the base row; every other value selects a row from `replacement`.
pub fn replace_rows_bf16(
    ctx: &CudaContext,
    base: &Tensor,
    replacement: &Tensor,
    row_map: &CudaBuffer,
) -> (result: Result<ReplaceLaunch, Error>)
    requires
        replace_matches(*base, *replacement) ==> base.dims@[0] * 4 <= usize::MAX,
    ensures
        result == unless(
            replace_problem(*ctx, *base, *replacement, *row_map),
            ReplaceLaunch {
                base: base.buffer.address,
                replacement: replacement.buffer.address,
                row_map: row_map.address,
                rows: base.dims@[0] as i32,
                cols: base.dims@[1] as i32,
                output: matrix_output(DType::BF16, base.dims@[0], base.dims@[1]),
            },
        ),
{
    let (rows, cols) = matrix_shape(base, "row replacement")?;
    let (_, replacement_cols) = matrix_shape(replacement, "row replacement")?;
    if base.dtype != DType::BF16 || replacement.dtype != DType::BF16 || cols != replacement_cols {
        return Err(Error::Other(REPLACE_MISMATCH));
    }
    require_buffer(ctx, "row replacement", "row_map", row_map, rows * 4)?;
    let output = allocate_matrix(DType::BF16, rows, cols)?;
    let kept: usize = gpu_ptr(base)?;
    let replaced: usize = gpu_ptr(replacement)?;
    Ok(
        ReplaceLaunch {
            base: kept,
            replacement: replaced,
            row_map: row_map.address,
            rows: rows as i32,
            cols: cols as i32,
            output,
        },
    )
}

pub const SLICE_RANGE: &'static str = "CUDA row slice range overflow";

pub const SLICE_OUTSIDE: &'static str = "CUDA row slice is outside the matrix";

pub const SLICE_WIDTH: &'static str = "CUDA row slice byte width overflow";

pub const SLICE_OFFSET: &'static str = "CUDA row slice byte offset overflow";

pub const SLICE_LENGTH: &'static str = "CUDA row slice byte length overflow";

/// The bytes of a row.
pub open spec fn row_bytes(input: Tensor) -> int {
    input.dims@[1] * dtype_size(input.dtype)
}

pub open spec fn slice_problem(ctx: CudaContext, input: Tensor, first_row: usize, row_count: usize) -> Option<
    Error,
> {
    match matrix_extents(input, "contiguous row slice") {
        Err(error) => Some(error),
        Ok((rows, _)) => if first_row + row_count > usize::MAX {
            Some(Error::Other(SLICE_RANGE))
        } else if row_count == 0 || first_row + row_count > rows {
            Some(Error::Other(SLICE_OUTSIDE))
        } else {
            first_of(
                device_problem(Device::Cuda(ctx.device_id), input.device),
                if row_bytes(input) > usize::MAX {
                    Some(Error::Other(SLICE_WIDTH))
                } else if first_row * row_bytes(input) > usize::MAX {
                    Some(Error::Other(SLICE_OFFSET))
                } else if row_count * row_bytes(input) > usize::MAX {
                    Some(Error::Other(SLICE_LENGTH))
                } else {
                    match input.buffer.slice_of(
                        first_row * row_bytes(input),
                        row_count * row_bytes(input),
                    ) {
                        Err(error) => Some(error),
                        Ok(_) => None,
                    }
                },
            )
        },
    }
}

/// Return a zero-copy view over contiguous rows of a CUDA matrix.
pub fn contiguous_rows(ctx: &CudaContext, input: &Tensor, first_row: usize, row_count: usize) -> (result:
    Result<Tensor, Error>)
    requires
        input.buffer.in_memory(),
    ensures
        match slice_problem(*ctx, *input, first_row, row_count) {
            Some(error) => result == Err::<Tensor, Error>(error),
            None => {
                &&& result matches Ok(view)
                &&& view.dtype == input.dtype
                &&& view.device == input.device
                &&& view.dims@ == seq![row_count, input.dims@[1]]
                &&& view.buffer == input.buffer.part(
                    first_row * row_bytes(*input),
                    row_count * row_bytes(*input),
                )
            },
        },
{
    let (rows, columns) = matrix_shape(input, "contiguous row slice")?;
    let end: usize = match first_row.checked_add(row_count) {
        Some(end) => end,
        None => {
            return Err(Error::Other(SLICE_RANGE));
        },
    };
    if row_count == 0 || end > rows {
        return Err(Error::Other(SLICE_OUTSIDE));
    }
    require_device(ctx, input.device)?;
    let width: usize = match columns.checked_mul(input.dtype.size_in_bytes()) {
        Some(width) => width,
        None => {
            return Err(Error::Other(SLICE_WIDTH));
        },
    };
    let offset: usize = match first_row.checked_mul(width) {
        Some(offset) => offset,
        None => {
            return Err(Error::Other(SLICE_OFFSET));
        },
    };
    let len: usize = match row_count.checked_mul(width) {
        Some(len) => len,
        None => {
            return Err(Error::Other(SLICE_LENGTH));
        },
    };
    let buffer = input.buffer.slice(offset, len)?;
    let dims: Vec<usize> = vec![row_count, columns];
    assert(dims@ =~= seq![row_count, columns]);
    Ok(Tensor { dtype: input.dtype, device: input.device, dims, buffer })
}

/// `apxinf_static_euler_update_*`: `state + dt * velocity`. The output has the
/// state's shape.
#[derive(Clone, Copy, Debug, PartialEq, Eq, Structural)]
pub struct EulerLaunch {
    pub dtype: DType,
    pub state: usize,
    pub velocity: usize,
    pub count: i64,
    pub dt: u32,
    pub output_bytes: usize,
}

pub const EULER_BF16: &'static str = "static inference BF16 Euler update expects matching tensors";

pub const EULER_F16: &'static str = "static inference Euler update expects matching FP16 tensors";

pub open spec fn euler_problem(dtype: DType, text: &'static str, state: Tensor, velocity: Tensor) -> Option<
    Error,
> {
    if state.dtype != dtype || velocity.dtype != dtype || state.dims@ != velocity.dims@ {
        Some(Error::Other(text))
    } else {
        first_of(pointer_problem(state), pointer_problem(velocity))
    }
}

pub open spec fn euler_launch(dtype: DType, state: Tensor, velocity: Tensor, dt: u32) -> EulerLaunch {
    EulerLaunch {
        dtype,
        state: state.buffer.address,
        velocity: velocity.buffer.address,
        count: product(state.dims@) as i64,
        dt,
        output_bytes: tensor_size(state) as usize,
    }
}

fn euler_update(dtype: DType, text: &'static str, state: &Tensor, velocity: &Tensor, dt: u32) -> (result:
    Result<EulerLaunch, Error>)
    requires
        tensor_fits(*state),
    ensures
        result == unless(
            euler_problem(dtype, text, *state, *velocity),
            euler_launch(dtype, *state, *velocity, dt),
        ),
{
    if state.dtype != dtype || velocity.dtype != dtype || !same_dims(&state.dims, &velocity.dims) {
        return Err(Error::Other(text));
    }
    let from: usize = gpu_ptr(state)?;
    let by: usize = gpu_ptr(velocity)?;
    Ok(
        EulerLaunch {
            dtype,
            state: from,
            velocity: by,
            count: numel(state) as i64,
            dt,
            output_bytes: tensor_bytes(state),
        },
    )
}

/// One Euler step on BF16 tensors; `dt` is given by its bits.
pub fn euler_update_bf16(state: &Tensor, velocity: &Tensor, dt: u32) -> (result: Result<
    EulerLaunch,
    Error,
>)
    requires
        tensor_fits(*state),
    ensures
        result == unless(
            euler_problem(DType::BF16, EULER_BF16, *state, *velocity),
            euler_launch(DType::BF16, *state, *velocity, dt),
        ),
{
    euler_update(DType::BF16, EULER_BF16, state, velocity, dt)
}

/// One Euler step on FP16 tensors; `dt` is given by its bits.
pub fn euler_update_f16(state: &Tensor, velocity: &Tensor, dt: u32) -> (result: Result<
    EulerLaunch,
    Error,
>)
    requires
        tensor_fits(*state),
    ensures
        result == unless(
            euler_problem(DType::F16, EULER_F16, *state, *velocity),
            euler_launch(DType::F16, *state, *velocity, dt),
        ),
{
    euler_update(DType::F16, EULER_F16, state, velocity, dt)
}

/// `apxinf_static_bias_f16`.
#[derive(Clone, Copy, Debug, PartialEq, Eq, Structural)]
pub struct BiasLaunch {
    pub input: usize,
    pub bias: usize,
    pub rows: i32,
    pub cols: i32,
    pub output: MatrixOutput,
}

pub const BIAS_F16: &'static str = "static inference bias expects an FP16 matrix and matching bias";

/// Whether an optional bias is a vector of a type and width.
pub open spec fn bias_matches(bias: Option<&Tensor>, dtype: DType, width: usize) -> bool {
    match bias {
        Some(bias) => bias.dtype == dtype && bias.dims@ == seq![width],
        None => true,
    }
}

pub fn check_bias(bias: Option<&Tensor>, dtype: DType, width: usize) -> (result: bool)
    ensures
        result == bias_matches(bias, dtype, width),
{
    match bias {
        Some(bias) => {
            let matches = bias.dtype == dtype && bias.dims.len() == 1 && bias.dims[0] == width;
            assert(matches ==> bias.dims@ =~= seq![width]);
            matches
        },
        None => true,
    }
}

pub open spec fn bias_f16_problem(input: Tensor, bias: Option<&Tensor>) -> Option<Error> {
    match matrix_extents(input, "bias") {
        Err(error) => Some(error),
        Ok((rows, cols)) => if input.dtype != DType::F16 || !bias_matches(bias, DType::F16, cols) {
            Some(Error::Other(BIAS_F16))
        } else {
            first_of(
                output_problem(DType::F16, rows as int, cols as int),
                first_of(pointer_problem(input), optional_problem(bias)),
            )
        },
    }
}

pub open spec fn bias_f16_launch(input: Tensor, bias: Option<&Tensor>) -> BiasLaunch {
    BiasLaunch {
        input: input.buffer.address,
        bias: optional_address(bias),
        rows: input.dims@[0] as i32,
        cols: input.dims@[1] as i32,
        output: matrix_output(DType::F16, input.dims@[0], input.dims@[1]),
    }
}

/// An optional bias over the rows of an FP16 matrix.
pub fn bias_f16(input: &Tensor, bias: Option<&Tensor>) -> (result: Result<BiasLaunch, Error>)
    ensures
        result == unless(bias_f16_problem(*input, bias), bias_f16_launch(*input, bias)),
{
    let (rows, cols) = matrix_shape(input, "bias")?;
    if input.dtype != DType::F16 || !check_bias(bias, DType::F16, cols) {
        return Err(Error::Other(BIAS_F16));
    }
    let output = allocate_matrix(DType::F16, rows, cols)?;
    let source: usize = gpu_ptr(input)?;
    let values: usize = optional_ptr(bias)?;
    Ok(
        BiasLaunch {
            input: source,
            bias: values,
            rows: rows as i32,
            cols: cols as i32,
            output,
        },
    )
}

} // verus!
