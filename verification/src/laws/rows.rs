//! Operations on rows and elements.

use super::attention::resident;
use super::memory::{element, has_room, inner, row};
use crate::context::CudaContext;
use crate::error::Error;
use crate::kernels::attention::qkv::{
    split_gqa_qkv_mrope_cache_bf16, split_qkv_bias_bf16, split_qkv_bias_f16,
    split_vision_qkv_rope_bf16, CacheTarget, MropeLaunch, MropeShape, SplitBiasLaunch,
    VisionRopeLaunch,
};
use crate::kernels::attention::softmax::{
    causal_mask, flash_bf16_into, softmax, softmax_causal, softmax_f32_into, DecodeExtents,
    DecodeSoftmax, FlashDecode, RowLaunch, RowOp,
};
use crate::kernels::cache::{
    append, append_at, reserve_prefix_bf16, reserve_prefix_f16, AppendAt, AppendRows, PrefixCopy,
};
use crate::kernels::contracts::{lemma_product3, product, tensor_size, MatrixOutput};
use crate::kernels::elementwise::{
    add_bias, add_into, bias_f16, bias_qkv_in_place_bf16, concat_rows_bf16, concat_rows_f16,
    contiguous_rows, euler_update_bf16, euler_update_f16, gather_rows_bf16_device_indices,
    gather_rows_bf16_prepared, mul_into, replace_rows_bf16, scale, scatter_rows_bf16_prepared,
    AddBiasLaunch, BiasLaunch, BiasQkvLaunch, BinaryLaunch, BinaryOp, ConcatLaunch, EulerLaunch,
    Factor, GatherLaunch, PreparedRowIndices, ReplaceLaunch, ScaleLaunch, ScatterLaunch,
    TensorBinary,
};
use crate::types::{dtype_size, CudaBuffer, CudaDeviceAddress, DType, Device, Tensor};
use vstd::prelude::*;

verus! {

/// A matrix of two-byte elements that is allocated for a result.
pub open spec fn is_output(output: MatrixOutput, dtype: DType, rows: int, cols: int) -> bool {
    output.dtype == dtype && output.rows == rows && output.cols == cols && output.bytes == rows
        * cols * 2
}

proof fn lemma_size(rows: int, cols: int)
    requires
        rows >= 0,
        cols >= 0,
    ensures
        0 <= rows * cols,
        0 <= rows * cols * 2,
{
    assert(0 <= rows * cols) by (nonlinear_arith)
        requires
            rows >= 0,
            cols >= 0,
    ;
}

/// The value of a binary operation.
pub open spec fn combined(op: BinaryOp, x: int, y: int) -> int {
    match op {
        BinaryOp::Add => x + y,
        BinaryOp::Multiply => x * y,
    }
}

proof fn lemma_product1(count: usize)
    ensures
        product(seq![count]) == count,
{
    let dims = seq![count];
    assert(dims.drop_last() =~= Seq::<usize>::empty());
    assert(product(Seq::<usize>::empty()) == 1);
    assert(product(dims) == product(dims.drop_last()) * dims.last() as nat);
}

proof fn lemma_product2(a: usize, b: usize)
    ensures
        product(seq![a, b]) == a * b,
{
    let dims = seq![a, b];
    assert(dims.drop_last() =~= seq![a]);
    lemma_product1(a);
    assert(product(dims) == product(dims.drop_last()) * dims.last() as nat);
}

/// The launch combines element `e` of `a` with element `e` of `b`.
pub open spec fn combines(
    launch: BinaryLaunch,
    op: BinaryOp,
    dtype: DType,
    a: CudaBuffer,
    b: CudaBuffer,
    output: CudaBuffer,
    count: int,
    memory: spec_fn(int) -> int,
    e: int,
) -> bool {
    let w = dtype_size(dtype) as int;
    &&& combined(
        launch.op,
        element(memory, launch.a as int, dtype_size(launch.dtype) as int, e),
        element(memory, launch.b as int, dtype_size(launch.dtype) as int, e),
    ) == combined(op, element(memory, a.address as int, w, e), element(memory, b.address as int, w, e))
    &&& launch.op == op && launch.dtype == dtype
    &&& launch.output == output.address
    &&& launch.count == count
}

/// The operands of a binary operation.
pub open spec fn binary_operands(
    ctx: CudaContext,
    dtype: DType,
    a: CudaBuffer,
    b: CudaBuffer,
    output: CudaBuffer,
    count: int,
) -> bool {
    let w = dtype_size(dtype) as int;
    &&& dtype == DType::F32 || dtype == DType::BF16
    &&& count > 0 && count * w <= usize::MAX
    &&& has_room(a, ctx.device_id, count, w)
    &&& has_room(b, ctx.device_id, count, w)
    &&& has_room(output, ctx.device_id, count, w)
}

/// The sum of two buffers.
pub proof fn lemma_add_into_adds(
    ctx: CudaContext,
    dtype: DType,
    a: CudaBuffer,
    b: CudaBuffer,
    output: CudaBuffer,
    count: usize,
    result: Result<BinaryLaunch, Error>,
    memory: spec_fn(int) -> int,
    e: int,
)
    requires
        call_ensures(add_into, (&ctx, dtype, &a, &b, &output, count), result),
        count <= u32::MAX,
    ensures
        result matches Ok(launch) ==> combines(
            launch,
            BinaryOp::Add,
            dtype,
            a,
            b,
            output,
            count as int,
            memory,
            e,
        ),
        result is Ok <==> binary_operands(ctx, dtype, a, b, output, count as int),
{
    lemma_product1(count);
    assert(seq![count][0] == count);
}

/// The product of two buffers.
pub proof fn lemma_mul_into_multiplies(
    ctx: CudaContext,
    dtype: DType,
    a: CudaBuffer,
    b: CudaBuffer,
    output: CudaBuffer,
    count: usize,
    result: Result<BinaryLaunch, Error>,
    memory: spec_fn(int) -> int,
    e: int,
)
    requires
        call_ensures(mul_into, (&ctx, dtype, &a, &b, &output, count), result),
        count <= u32::MAX,
    ensures
        result matches Ok(launch) ==> combines(
            launch,
            BinaryOp::Multiply,
            dtype,
            a,
            b,
            output,
            count as int,
            memory,
            e,
        ),
        result is Ok <==> binary_operands(ctx, dtype, a, b, output, count as int),
{
    lemma_product1(count);
    assert(seq![count][0] == count);
}

/// A launch over tensors combines element `e` of `a` with element `e` of `b`.
pub open spec fn combines_tensors(
    launch: TensorBinary,
    op: BinaryOp,
    a: Tensor,
    b: Tensor,
    memory: spec_fn(int) -> int,
    e: int,
) -> bool {
    let w = dtype_size(a.dtype) as int;
    &&& combined(
        launch.op,
        element(memory, launch.a as int, dtype_size(launch.dtype) as int, e),
        element(memory, launch.b as int, dtype_size(launch.dtype) as int, e),
    ) == combined(
        op,
        element(memory, a.buffer.address as int, w, e),
        element(memory, b.buffer.address as int, w, e),
    )
    &&& launch.op == op && launch.dtype == a.dtype
    &&& launch.count == product(a.dims@)
    &&& launch.output_bytes == launch.count * w
}

/// The sum and the product of two tensors.
pub proof fn lemma_tensors_are_combined(
    a: Tensor,
    b: Tensor,
    sum: Result<TensorBinary, Error>,
    multiple: Result<TensorBinary, Error>,
    memory: spec_fn(int) -> int,
    e: int,
)
    requires
        call_ensures(crate::kernels::elementwise::add, (&a, &b), sum),
        call_ensures(crate::kernels::elementwise::mul, (&a, &b), multiple),
        product(a.dims@) <= u32::MAX,
        tensor_size(a) <= usize::MAX,
    ensures
        sum matches Ok(launch) ==> combines_tensors(launch, BinaryOp::Add, a, b, memory, e),
        multiple matches Ok(launch) ==> combines_tensors(
            launch,
            BinaryOp::Multiply,
            a,
            b,
            memory,
            e,
        ),
        sum is Ok <==> (a.dtype == DType::F32 || a.dtype == DType::BF16) && a.device is Cuda
            && b.device is Cuda,
        multiple is Ok <==> sum is Ok,
{
}

/// A bias is added to every row of a matrix.
pub proof fn lemma_add_bias_adds_to_rows(
    input: Tensor,
    bias: Tensor,
    result: Result<AddBiasLaunch, Error>,
    memory: spec_fn(int) -> int,
    r: int,
    c: int,
)
    requires
        call_ensures(add_bias, (&input, &bias), result),
        input.dims@.len() == 2,
        input.dims@[0] <= u32::MAX,
        input.dims@[1] <= u32::MAX,
        tensor_size(input) <= usize::MAX,
    ensures
        result matches Ok(launch) ==> {
            &&& element(memory, launch.input as int, 2, r * launch.cols + c) + element(
                memory,
                launch.bias as int,
                2,
                c,
            ) == element(memory, input.buffer.address as int, 2, r * input.dims@[1] + c) + element(
                memory,
                bias.buffer.address as int,
                2,
                c,
            )
            &&& launch.rows == input.dims@[0]
            &&& launch.output_bytes == input.dims@[0] * input.dims@[1] * 2
        },
        result is Ok <==> input.dtype == DType::BF16 && input.device is Cuda && bias.device is Cuda,
{
    lemma_product2(input.dims@[0], input.dims@[1]);
    assert(input.dims@ =~= seq![input.dims@[0], input.dims@[1]]);
}

/// Every element is multiplied by the factor.
pub proof fn lemma_scale_multiplies(
    input: Tensor,
    factor: Factor,
    result: Result<ScaleLaunch, Error>,
    memory: spec_fn(int) -> int,
    reading: spec_fn(Factor) -> int,
    e: int,
)
    requires
        call_ensures(scale, (&input, factor), result),
        product(input.dims@) <= u32::MAX,
        tensor_size(input) <= usize::MAX,
    ensures
        result matches Ok(launch) ==> {
            &&& element(memory, launch.input as int, dtype_size(launch.dtype) as int, e) * reading(
                launch.factor,
            ) == element(
                memory,
                input.buffer.address as int,
                dtype_size(input.dtype) as int,
                e,
            ) * reading(factor)
            &&& launch.dtype == input.dtype
            &&& launch.count == product(input.dims@)
            &&& launch.output_bytes == launch.count * dtype_size(input.dtype)
        },
        result is Ok <==> (input.dtype == DType::F32 || input.dtype == DType::BF16)
            && input.device is Cuda,
{
}

/// Queries, keys and values each get their own bias.
pub proof fn lemma_qkv_biases_keep_apart(
    ctx: CudaContext,
    query: Tensor,
    key: Tensor,
    value: Tensor,
    query_bias: Tensor,
    key_bias: Tensor,
    value_bias: Tensor,
    result: Result<BiasQkvLaunch, Error>,
    memory: spec_fn(int) -> int,
    r: int,
    c: int,
)
    requires
        call_ensures(
            bias_qkv_in_place_bf16,
            (&ctx, &query, &key, &value, &query_bias, &key_bias, &value_bias),
            result,
        ),
        query.dims@.len() == 2 ==> query.dims@[0] <= i32::MAX && query.dims@[1] <= i32::MAX,
    ensures
        result matches Ok(launch) ==> {
            let at = r * query.dims@[1] + c;
            &&& element(memory, launch.query as int, 2, r * launch.cols + c) + element(
                memory,
                launch.query_bias as int,
                2,
                c,
            ) == element(memory, query.buffer.address as int, 2, at) + element(
                memory,
                query_bias.buffer.address as int,
                2,
                c,
            )
            &&& element(memory, launch.key as int, 2, r * launch.cols + c) + element(
                memory,
                launch.key_bias as int,
                2,
                c,
            ) == element(memory, key.buffer.address as int, 2, at) + element(
                memory,
                key_bias.buffer.address as int,
                2,
                c,
            )
            &&& element(memory, launch.value as int, 2, r * launch.cols + c) + element(
                memory,
                launch.value_bias as int,
                2,
                c,
            ) == element(memory, value.buffer.address as int, 2, at) + element(
                memory,
                value_bias.buffer.address as int,
                2,
                c,
            )
            &&& launch.query == query.buffer.address && launch.key == key.buffer.address
                && launch.value == value.buffer.address
            &&& launch.rows == query.dims@[0]
        },
        result is Ok <==> {
            let here = Device::Cuda(ctx.device_id);
            &&& query.dims@.len() == 2 && key.dims@ == query.dims@ && value.dims@ == query.dims@
            &&& query.dims@[1] % 4 == 0
            &&& query_bias.dims@ =~= seq![query.dims@[1]] && key_bias.dims@ =~= seq![query.dims@[1]]
                && value_bias.dims@ =~= seq![query.dims@[1]]
            &&& forall|tensor: Tensor|
                tensor == query || tensor == key || tensor == value || tensor == query_bias
                    || tensor == key_bias || tensor == value_bias ==> #[trigger] tensor.dtype
                    == DType::BF16 && tensor.device == here
        },
{
    if query.dims@.len() == 2 {
        assert(query.dims@ =~= seq![query.dims@[0], query.dims@[1]]);
    }
    assert(query.dtype == query.dtype && key.dtype == key.dtype && value.dtype == value.dtype);
    assert(query_bias.dtype == query_bias.dtype && key_bias.dtype == key_bias.dtype);
    assert(value_bias.dtype == value_bias.dtype);
}

/// The element `(r, c)` of two matrices, one below the other.
pub open spec fn stacked(
    memory: spec_fn(int) -> int,
    first: int,
    second: int,
    first_rows: int,
    cols: int,
    r: int,
    c: int,
) -> int {
    if r < first_rows {
        element(memory, first, 2, r * cols + c)
    } else {
        element(memory, second, 2, (r - first_rows) * cols + c)
    }
}

/// The launch puts the rows of the second matrix below those of the first.
pub open spec fn stacks(
    launch: ConcatLaunch,
    dtype: DType,
    first: Tensor,
    second: Tensor,
    memory: spec_fn(int) -> int,
    r: int,
    c: int,
) -> bool {
    &&& stacked(
        memory,
        launch.first as int,
        launch.second as int,
        launch.first_rows as int,
        launch.cols as int,
        r,
        c,
    ) == stacked(
        memory,
        first.buffer.address as int,
        second.buffer.address as int,
        first.dims@[0] as int,
        first.dims@[1] as int,
        r,
        c,
    )
    &&& launch.second_rows == second.dims@[0]
    &&& is_output(launch.output, dtype, first.dims@[0] + second.dims@[0], first.dims@[1] as int)
}

/// Matrices that can be stacked.
pub open spec fn stackable(dtype: DType, first: Tensor, second: Tensor) -> bool {
    &&& first.dtype == dtype && second.dtype == dtype
    &&& first.dims@.len() == 2 && second.dims@.len() == 2 && first.dims@[1] == second.dims@[1]
    &&& first.device is Cuda && second.device is Cuda
    &&& (first.dims@[0] + second.dims@[0]) * first.dims@[1] * 2 <= usize::MAX
}

/// Rows of BF16 and of FP16 matrices are put one below the other.
pub proof fn lemma_concat_stacks_rows(
    first: Tensor,
    second: Tensor,
    wide: Result<ConcatLaunch, Error>,
    half: Result<ConcatLaunch, Error>,
    memory: spec_fn(int) -> int,
    r: int,
    c: int,
)
    requires
        call_ensures(concat_rows_bf16, (&first, &second), wide),
        call_ensures(concat_rows_f16, (&first, &second), half),
        first.dims@.len() == 2 && second.dims@.len() == 2 ==> first.dims@[0] <= i32::MAX
            && second.dims@[0] <= i32::MAX && first.dims@[1] <= i32::MAX && first.dims@[0]
            + second.dims@[0] <= usize::MAX,
    ensures
        wide matches Ok(launch) ==> stacks(launch, DType::BF16, first, second, memory, r, c),
        half matches Ok(launch) ==> stacks(launch, DType::F16, first, second, memory, r, c),
        wide is Ok <==> stackable(DType::BF16, first, second),
        half is Ok <==> stackable(DType::F16, first, second),
{
    if first.dims@.len() == 2 && second.dims@.len() == 2 {
        lemma_size(first.dims@[0] + second.dims@[0], first.dims@[1] as int);
    }
}

/// A gather launch writes row `indices[r]` of the input to row `r` of the output.
pub open spec fn gathers(
    launch: GatherLaunch,
    input: Tensor,
    indices: CudaBuffer,
    rows: int,
    memory: spec_fn(int) -> int,
    r: int,
    c: int,
) -> bool {
    &&& element(
        memory,
        launch.input as int,
        2,
        element(memory, launch.indices as int, 4, r) * launch.cols + c,
    ) == element(
        memory,
        input.buffer.address as int,
        2,
        element(memory, indices.address as int, 4, r) * input.dims@[1] + c,
    )
    &&& launch.rows == rows
    &&& is_output(launch.output, DType::BF16, rows, input.dims@[1] as int)
}

/// Rows are gathered by indices on the device.
pub proof fn lemma_gather_selects_rows(
    ctx: CudaContext,
    input: Tensor,
    indices: CudaBuffer,
    rows: usize,
    result: Result<GatherLaunch, Error>,
    memory: spec_fn(int) -> int,
    r: int,
    c: int,
)
    requires
        call_ensures(gather_rows_bf16_device_indices, (&ctx, &input, &indices, rows), result),
        rows <= i32::MAX,
        input.dims@.len() == 2 ==> input.dims@[1] <= i32::MAX,
    ensures
        result matches Ok(launch) ==> gathers(launch, input, indices, rows as int, memory, r, c),
        result is Ok <==> {
            &&& input.dtype == DType::BF16 && input.device is Cuda && input.dims@.len() == 2
            &&& 0 < rows <= input.dims@[0]
            &&& has_room(indices, ctx.device_id, rows as int, 4)
            &&& rows * input.dims@[1] * 2 <= usize::MAX
        },
{
    if input.dims@.len() == 2 {
        lemma_size(rows as int, input.dims@[1] as int);
    }
}

/// Rows are gathered by indices that were checked for the matrix.
pub proof fn lemma_prepared_gather_selects_rows(
    ctx: CudaContext,
    input: Tensor,
    indices: PreparedRowIndices,
    result: Result<GatherLaunch, Error>,
    memory: spec_fn(int) -> int,
    r: int,
    c: int,
)
    requires
        call_ensures(gather_rows_bf16_prepared, (&ctx, &input, &indices), result),
        indices.row_count <= i32::MAX,
        input.dims@.len() == 2 ==> input.dims@[1] <= i32::MAX,
    ensures
        result matches Ok(launch) ==> gathers(
            launch,
            input,
            indices.buffer,
            indices.row_count as int,
            memory,
            r,
            c,
        ),
        result is Ok ==> indices.matrix_rows == input.dims@[0] && 0 < indices.row_count
            <= input.dims@[0] && has_room(indices.buffer, ctx.device_id, indices.row_count as int, 4),
{
    if input.dims@.len() == 2 {
        lemma_size(indices.row_count as int, input.dims@[1] as int);
    }
}

/// What a scatter launch leaves at `(indices[i], c)`: source row `i`, written or added to the
/// destination, which was copied whole before.
pub proof fn lemma_scatter_sends_rows(
    ctx: CudaContext,
    destination: Tensor,
    indices: PreparedRowIndices,
    source: Tensor,
    add: bool,
    result: Result<ScatterLaunch, Error>,
    memory: spec_fn(int) -> int,
    i: int,
    c: int,
)
    requires
        call_ensures(
            scatter_rows_bf16_prepared,
            (&ctx, &destination, &indices, &source, add),
            result,
        ),
    ensures
        result matches Ok(launch) ==> {
            let at = element(memory, indices.buffer.address as int, 4, i);
            &&& element(memory, launch.indices as int, 4, i) == at
            &&& element(memory, launch.source as int, 2, i * launch.width + c) + if launch.add {
                element(memory, launch.destination as int, 2, at * launch.width + c)
            } else {
                0
            } == element(
                memory,
                source.buffer.address as int,
                2,
                i * source.dims@[1] + c,
            ) + if add {
                element(memory, destination.buffer.address as int, 2, at * destination.dims@[1] + c)
            } else {
                0
            }
            &&& launch.add == add
            &&& launch.destination == destination.buffer.address
            &&& launch.destination_bytes == destination.dims@[0] * destination.dims@[1] * 2
            &&& launch.count == indices.row_count
            &&& is_output(
                launch.output,
                DType::BF16,
                destination.dims@[0] as int,
                destination.dims@[1] as int,
            )
        },
        result is Ok <==> {
            let here = Device::Cuda(ctx.device_id);
            &&& destination.dtype == DType::BF16 && source.dtype == DType::BF16
            &&& destination.device == here && source.device == here
            &&& destination.dims@.len() == 2 && source.dims@ =~= seq![
                indices.row_count,
                destination.dims@[1],
            ]
            &&& indices.matrix_rows == destination.dims@[0] && indices.unique
            &&& has_room(indices.buffer, ctx.device_id, indices.row_count as int, 4)
            &&& destination.dims@[0] * destination.dims@[1] * 2 <= usize::MAX
            &&& indices.row_count <= i32::MAX && destination.dims@[1] <= i32::MAX
        },
{
    if destination.dims@.len() == 2 {
        lemma_size(destination.dims@[0] as int, destination.dims@[1] as int);
    }
}

/// The element `(r, c)` of a matrix some of whose rows are replaced: the map names a row of
/// the replacement, or is all ones to keep the base.
pub open spec fn replaced(
    memory: spec_fn(int) -> int,
    base: int,
    replacement: int,
    row_map: int,
    cols: int,
    r: int,
    c: int,
) -> int {
    let from = element(memory, row_map, 4, r);
    if from == 0xffff_ffff {
        element(memory, base, 2, r * cols + c)
    } else {
        element(memory, replacement, 2, from * cols + c)
    }
}

/// Rows are replaced by those that the map names.
pub proof fn lemma_replace_follows_map(
    ctx: CudaContext,
    base: Tensor,
    replacement: Tensor,
    row_map: CudaBuffer,
    result: Result<ReplaceLaunch, Error>,
    memory: spec_fn(int) -> int,
    r: int,
    c: int,
)
    requires
        call_ensures(replace_rows_bf16, (&ctx, &base, &replacement, &row_map), result),
        base.dims@.len() == 2 ==> base.dims@[0] <= i32::MAX && base.dims@[1] <= i32::MAX,
    ensures
        result matches Ok(launch) ==> {
            &&& replaced(
                memory,
                launch.base as int,
                launch.replacement as int,
                launch.row_map as int,
                launch.cols as int,
                r,
                c,
            ) == replaced(
                memory,
                base.buffer.address as int,
                replacement.buffer.address as int,
                row_map.address as int,
                base.dims@[1] as int,
                r,
                c,
            )
            &&& launch.rows == base.dims@[0]
            &&& is_output(
                launch.output,
                DType::BF16,
                base.dims@[0] as int,
                base.dims@[1] as int,
            )
        },
        result is Ok <==> {
            &&& base.dtype == DType::BF16 && replacement.dtype == DType::BF16
            &&& base.device is Cuda && replacement.device is Cuda
            &&& base.dims@.len() == 2 && replacement.dims@.len() == 2 && base.dims@[1]
                == replacement.dims@[1]
            &&& has_room(row_map, ctx.device_id, base.dims@[0] as int, 4)
            &&& base.dims@[0] * base.dims@[1] * 2 <= usize::MAX
        },
{
    if base.dims@.len() == 2 {
        lemma_size(base.dims@[0] as int, base.dims@[1] as int);
    }
}

/// A view of rows shows the rows of the matrix: its element `(r, c)` lies where the matrix
/// has `(first_row + r, c)`.
pub proof fn lemma_row_view_shows_rows(
    ctx: CudaContext,
    input: Tensor,
    first_row: usize,
    row_count: usize,
    result: Result<Tensor, Error>,
    r: int,
    c: int,
)
    requires
        call_ensures(contiguous_rows, (&ctx, &input, first_row, row_count), result),
        input.buffer.in_memory(),
    ensures
        result matches Ok(view) ==> {
            let w = dtype_size(input.dtype) as int;
            &&& view.buffer.address + (r * view.dims@[1] + c) * w == input.buffer.address + ((
            first_row + r) * input.dims@[1] + c) * w
            &&& view.buffer.device == input.buffer.device
            &&& view.buffer.len == row_count * input.dims@[1] * w
            &&& view.dtype == input.dtype && view.device == input.device
            &&& view.dims@ =~= seq![row_count, input.dims@[1]]
        },
        result is Ok ==> {
            &&& input.dims@.len() == 2 && row_count > 0
            &&& first_row + row_count <= input.dims@[0]
            &&& input.device == Device::Cuda(ctx.device_id)
            &&& (first_row + row_count) * (input.dims@[1] * dtype_size(input.dtype))
                <= input.buffer.len
        },
{
    if let Ok(view) = result {
        let w = dtype_size(input.dtype) as int;
        let (f, n, cols) = (first_row as int, row_count as int, input.dims@[1] as int);
        assert(f * (cols * w) + (r * cols + c) * w == ((f + r) * cols + c) * w) by (nonlinear_arith);
        assert(n * (cols * w) == n * cols * w) by (nonlinear_arith);
        assert(f * (cols * w) + n * (cols * w) == (f + n) * (cols * w)) by (nonlinear_arith);
        assert(0 <= f * (cols * w) && 0 <= n * (cols * w)) by (nonlinear_arith)
            requires
                f >= 0,
                n >= 0,
                cols >= 0,
                w >= 0,
        ;
    }
}

/// The launch advances every element of the state by `dt` times the velocity.
pub open spec fn advances(
    launch: EulerLaunch,
    dtype: DType,
    state: Tensor,
    velocity: Tensor,
    dt: u32,
    memory: spec_fn(int) -> int,
    reading: spec_fn(u32) -> int,
    e: int,
) -> bool {
    &&& element(memory, launch.state as int, 2, e) + reading(launch.dt) * element(
        memory,
        launch.velocity as int,
        2,
        e,
    ) == element(memory, state.buffer.address as int, 2, e) + reading(dt) * element(
        memory,
        velocity.buffer.address as int,
        2,
        e,
    )
    &&& launch.state == state.buffer.address
    &&& launch.dtype == dtype
    &&& launch.count == product(state.dims@)
    &&& launch.output_bytes == product(state.dims@) * 2
}

/// One Euler step on BF16 and on FP16 tensors.
pub proof fn lemma_euler_advances(
    state: Tensor,
    velocity: Tensor,
    dt: u32,
    wide: Result<EulerLaunch, Error>,
    half: Result<EulerLaunch, Error>,
    memory: spec_fn(int) -> int,
    reading: spec_fn(u32) -> int,
    e: int,
)
    requires
        call_ensures(euler_update_bf16, (&state, &velocity, dt), wide),
        call_ensures(euler_update_f16, (&state, &velocity, dt), half),
        product(state.dims@) <= i64::MAX,
        tensor_size(state) <= usize::MAX,
    ensures
        wide matches Ok(launch) ==> advances(
            launch,
            DType::BF16,
            state,
            velocity,
            dt,
            memory,
            reading,
            e,
        ),
        half matches Ok(launch) ==> advances(
            launch,
            DType::F16,
            state,
            velocity,
            dt,
            memory,
            reading,
            e,
        ),
        wide is Ok <==> state.dtype == DType::BF16 && velocity.dtype == DType::BF16 && state.dims@
            == velocity.dims@ && state.device is Cuda && velocity.device is Cuda,
        half is Ok <==> state.dtype == DType::F16 && velocity.dtype == DType::F16 && state.dims@
            == velocity.dims@ && state.device is Cuda && velocity.device is Cuda,
{
}

/// The bias of a column: zero where there is none.
pub open spec fn biased(memory: spec_fn(int) -> int, bias: int, c: int) -> int {
    if bias == 0 {
        0
    } else {
        element(memory, bias, 2, c)
    }
}

/// A bias is added to every row of an FP16 matrix.
pub proof fn lemma_bias_f16_adds_to_rows(
    input: Tensor,
    bias: Option<&Tensor>,
    result: Result<BiasLaunch, Error>,
    memory: spec_fn(int) -> int,
    r: int,
    c: int,
)
    requires
        call_ensures(bias_f16, (&input, bias), result),
        input.dims@.len() == 2 ==> input.dims@[0] <= i32::MAX && input.dims@[1] <= i32::MAX,
        bias matches Some(bias) ==> bias.buffer.address != 0,
    ensures
        result matches Ok(launch) ==> {
            &&& element(memory, launch.input as int, 2, r * launch.cols + c) + biased(
                memory,
                launch.bias as int,
                c,
            ) == element(memory, input.buffer.address as int, 2, r * input.dims@[1] + c) + match bias {
                Some(bias) => element(memory, bias.buffer.address as int, 2, c),
                None => 0,
            }
            &&& launch.rows == input.dims@[0]
            &&& is_output(
                launch.output,
                DType::F16,
                input.dims@[0] as int,
                input.dims@[1] as int,
            )
        },
        result is Ok <==> {
            &&& input.dtype == DType::F16 && input.device is Cuda && input.dims@.len() == 2
            &&& bias matches Some(bias) ==> bias.dtype == DType::F16 && bias.device is Cuda
                && bias.dims@ == seq![input.dims@[1]]
            &&& input.dims@[0] * input.dims@[1] * 2 <= usize::MAX
        },
{
    if input.dims@.len() == 2 {
        lemma_size(input.dims@[0] as int, input.dims@[1] as int);
    }
}

/// A split launch reads, for part 0, 1 or 2 of a fused projection, the elements that follow
/// the parts before it, each with its bias.
pub open spec fn splits_projection(
    launch: SplitBiasLaunch,
    dtype: DType,
    qkv: Tensor,
    bias: Option<&Tensor>,
    hidden: int,
    memory: spec_fn(int) -> int,
    part: int,
    t: int,
    c: int,
) -> bool {
    let width = launch.width as int;
    &&& element(memory, launch.qkv as int, 2, t * (3 * width) + part * width + c) + biased(
        memory,
        launch.bias as int,
        part * width + c,
    ) == element(memory, qkv.buffer.address as int, 2, t * qkv.dims@[1] + part * hidden + c)
        + match bias {
        Some(bias) => element(memory, bias.buffer.address as int, 2, part * hidden + c),
        None => 0,
    }
    &&& launch.tokens == qkv.dims@[0]
    &&& is_output(launch.output, dtype, qkv.dims@[0] as int, hidden)
}

/// A projection that splits into three equal parts.
pub open spec fn splittable(dtype: DType, qkv: Tensor, bias: Option<&Tensor>, hidden: int) -> bool {
    &&& qkv.dtype == dtype && qkv.device is Cuda && qkv.dims@.len() == 2
    &&& qkv.dims@[1] == 3 * hidden
    &&& bias matches Some(bias) ==> bias.dtype == dtype && bias.device is Cuda && bias.dims@
        == seq![qkv.dims@[1]]
    &&& qkv.dims@[0] * hidden * 2 <= usize::MAX
}

/// Fused BF16 and FP16 projections are split into queries, keys and values.
pub proof fn lemma_split_parts_projection(
    qkv: Tensor,
    bias: Option<&Tensor>,
    heads: usize,
    head_dim: usize,
    wide: Result<SplitBiasLaunch, Error>,
    half: Result<SplitBiasLaunch, Error>,
    memory: spec_fn(int) -> int,
    part: int,
    t: int,
    c: int,
)
    requires
        call_ensures(split_qkv_bias_bf16, (&qkv, bias, heads, head_dim), wide),
        call_ensures(split_qkv_bias_f16, (&qkv, bias, heads, head_dim), half),
        3 * (heads * head_dim) <= i32::MAX,
        qkv.dims@.len() == 2 ==> qkv.dims@[0] <= i32::MAX,
        bias matches Some(bias) ==> bias.buffer.address != 0,
    ensures
        wide matches Ok(launch) ==> splits_projection(
            launch,
            DType::BF16,
            qkv,
            bias,
            heads * head_dim,
            memory,
            part,
            t,
            c,
        ),
        half matches Ok(launch) ==> splits_projection(
            launch,
            DType::F16,
            qkv,
            bias,
            heads * head_dim,
            memory,
            part,
            t,
            c,
        ),
        wide is Ok <==> splittable(DType::BF16, qkv, bias, heads * head_dim),
        half is Ok <==> splittable(DType::F16, qkv, bias, heads * head_dim),
{
    lemma_size(heads as int, head_dim as int);
    if qkv.dims@.len() == 2 {
        lemma_size(qkv.dims@[0] as int, heads * head_dim);
    }
}

/// The split with multimodal positions reads the projection, the bias and the positions of
/// the call, and writes keys and values to the rows behind the offset of the caches of the
/// call, or to the first rows of new ones. It is planned exactly where these belong
/// together.
pub proof fn lemma_mrope_split_keeps_places(
    qkv: Tensor,
    bias: Option<&Tensor>,
    position_ids: CudaBuffer,
    shape: MropeShape,
    caches: Option<(&Tensor, &Tensor, usize)>,
    result: Result<MropeLaunch, Error>,
    memory: spec_fn(int) -> int,
    t: int,
    c: int,
)
    requires
        call_ensures(
            split_gqa_qkv_mrope_cache_bf16,
            (&qkv, bias, &position_ids, &shape, caches),
            result,
        ),
        shape.fits(),
        shape.width() <= i32::MAX,
        shape.q_heads <= i32::MAX,
        shape.kv_heads <= i32::MAX,
        shape.cache_tokens <= i32::MAX,
        shape.cache_tokens * shape.kv_heads <= usize::MAX,
        qkv.dims@.len() == 2 ==> qkv.dims@[0] <= i32::MAX,
        bias matches Some(bias) ==> bias.buffer.address != 0,
    ensures
        result matches Ok(launch) ==> {
            let hidden = shape.q_heads * shape.head_dim;
            let width = launch.q_heads * launch.head_dim + 2 * (launch.kv_heads * launch.head_dim);
            &&& launch.half <==> qkv.dtype == DType::F16
            &&& element(memory, launch.qkv as int, 2, t * width + c) + biased(
                memory,
                launch.bias as int,
                c,
            ) == element(memory, qkv.buffer.address as int, 2, t * qkv.dims@[1] + c) + match bias {
                Some(bias) => element(memory, bias.buffer.address as int, 2, c),
                None => 0,
            }
            &&& launch.position_ids == position_ids.address
            &&& launch.tokens == qkv.dims@[0]
            &&& launch.q_heads == shape.q_heads && launch.kv_heads == shape.kv_heads
            &&& launch.head_dim == shape.head_dim && launch.theta == shape.theta
            &&& launch.section_height == shape.section_height
            &&& launch.section_width == shape.section_width
            &&& is_output(launch.query, DType::BF16, qkv.dims@[0] as int, hidden)
            &&& caches matches Some((k, v, offset)) ==> {
                &&& launch.target == (CacheTarget::Existing {
                    key: k.buffer.address,
                    value: v.buffer.address,
                })
                &&& launch.cache_offset == offset
            }
            &&& caches is None ==> {
                &&& launch.target matches CacheTarget::Owned { rows, cols, bytes }
                &&& rows == shape.cache_tokens * shape.kv_heads && cols == shape.head_dim
                &&& bytes == shape.cache_tokens * shape.kv_heads * shape.head_dim * 2
                &&& launch.cache_offset == 0
            }
        },
        result is Ok ==> {
            &&& qkv.dtype == DType::BF16 || qkv.dtype == DType::F16
            &&& qkv.device is Cuda && qkv.dims@.len() == 2
            &&& qkv.dims@[1] == shape.q_heads * shape.head_dim + 2 * (shape.kv_heads
                * shape.head_dim)
            &&& shape.q_heads > 0 && shape.kv_heads > 0 && shape.q_heads as int
                % shape.kv_heads as int == 0
            &&& 0 < shape.head_dim <= 256 && shape.head_dim % 2 == 0
            &&& 2 * (shape.section_height + shape.section_width) <= shape.head_dim
            &&& 0 < shape.theta < 0x7f80_0000
            &&& qkv.dims@[0] * 3 * 4 <= position_ids.len
            &&& bias matches Some(bias) ==> bias.dtype == DType::BF16 && bias.device is Cuda
                && bias.dims@ == seq![qkv.dims@[1]]
            &&& caches matches Some((k, v, offset)) ==> {
                let dims = seq![shape.cache_tokens, shape.kv_heads, shape.head_dim];
                &&& k.dtype == DType::BF16 && v.dtype == DType::BF16
                &&& k.device is Cuda && v.device is Cuda
                &&& k.dims@ == dims && v.dims@ == dims
                &&& offset + qkv.dims@[0] <= shape.cache_tokens
            }
            &&& caches is None ==> qkv.dims@[0] <= shape.cache_tokens
        },
{
    lemma_size(shape.q_heads as int, shape.head_dim as int);
    lemma_size(shape.kv_heads as int, shape.head_dim as int);
    lemma_size(shape.cache_tokens as int, shape.kv_heads as int);
    lemma_size(shape.cache_tokens * shape.kv_heads, shape.head_dim as int);
    if qkv.dims@.len() == 2 {
        lemma_size(qkv.dims@[0] as int, shape.q_heads * shape.head_dim);
    }
}

/// The split with two-dimensional positions reads the projection, the bias and the positions
/// of the call.
pub proof fn lemma_vision_split_keeps_places(
    qkv: Tensor,
    bias: Option<&Tensor>,
    position_ids: CudaBuffer,
    heads: usize,
    head_dim: usize,
    theta: u32,
    result: Result<VisionRopeLaunch, Error>,
    memory: spec_fn(int) -> int,
    t: int,
    c: int,
)
    requires
        call_ensures(
            split_vision_qkv_rope_bf16,
            (&qkv, bias, &position_ids, heads, head_dim, theta),
            result,
        ),
        3 * (heads * head_dim) <= i32::MAX,
        heads <= i32::MAX,
        qkv.dims@.len() == 2 ==> qkv.dims@[0] <= i32::MAX,
        bias matches Some(bias) ==> bias.buffer.address != 0,
    ensures
        result matches Ok(launch) ==> {
            let width = 3 * (launch.heads * launch.head_dim);
            &&& launch.half <==> qkv.dtype == DType::F16
            &&& element(memory, launch.qkv as int, 2, t * width + c) + biased(
                memory,
                launch.bias as int,
                c,
            ) == element(memory, qkv.buffer.address as int, 2, t * qkv.dims@[1] + c) + match bias {
                Some(bias) => element(memory, bias.buffer.address as int, 2, c),
                None => 0,
            }
            &&& launch.position_ids == position_ids.address
            &&& launch.tokens == qkv.dims@[0]
            &&& launch.heads == heads && launch.head_dim == head_dim && launch.theta == theta
            &&& is_output(launch.output, DType::BF16, qkv.dims@[0] as int, heads * head_dim)
        },
        result is Ok <==> {
            &&& qkv.dtype == DType::BF16 || qkv.dtype == DType::F16
            &&& qkv.device is Cuda && qkv.dims@.len() == 2
            &&& qkv.dims@[1] == 3 * (heads * head_dim)
            &&& heads > 0 && 0 < head_dim <= 256 && head_dim % 4 == 0
            &&& 0 < theta < 0x7f80_0000
            &&& qkv.dims@[0] * 2 * 4 <= position_ids.len
            &&& bias matches Some(bias) ==> bias.dtype == DType::BF16 && bias.device is Cuda
                && bias.dims@ == seq![qkv.dims@[1]]
            &&& qkv.dims@[0] * (heads * head_dim) * 2 <= usize::MAX
        },
{
    lemma_size(heads as int, head_dim as int);
    if qkv.dims@.len() == 2 {
        lemma_size(qkv.dims@[0] as int, heads * head_dim);
    }
}

/// The launch works on the rows of a tensor: its last two extents are rows and columns.
pub open spec fn works_on_rows(launch: RowLaunch, input: Tensor) -> bool {
    let n = input.dims@.len();
    &&& launch.dtype == input.dtype
    &&& launch.input == input.buffer.address
    &&& launch.rows == input.dims@[n - 2] && launch.cols == input.dims@[n - 1]
    &&& launch.output_bytes == tensor_size(input)
}

/// Softmax, causal mask and both in one work on the rows of the tensor of the call.
pub proof fn lemma_row_operations_keep_places(
    input: Tensor,
    kv_offset: u32,
    n_heads: u32,
    plain: Result<RowLaunch, Error>,
    masked: Result<RowLaunch, Error>,
    fused: Result<RowLaunch, Error>,
)
    requires
        call_ensures(softmax, (&input,), plain),
        call_ensures(causal_mask, (&input, kv_offset), masked),
        call_ensures(softmax_causal, (&input, kv_offset, n_heads), fused),
        input.dims@.len() >= 2,
        input.dims@[input.dims@.len() - 2] <= u32::MAX,
        input.dims@[input.dims@.len() - 1] <= u32::MAX,
        tensor_size(input) <= usize::MAX,
    ensures
        plain matches Ok(launch) ==> works_on_rows(launch, input) && launch.op is Softmax,
        masked matches Ok(launch) ==> works_on_rows(launch, input) && launch.op
            == (RowOp::CausalMask { kv_offset }),
        fused matches Ok(launch) ==> works_on_rows(launch, input) && launch.op
            == (RowOp::CausalSoftmax { kv_offset, heads: n_heads }),
        plain is Ok <==> (input.dtype == DType::F32 || input.dtype == DType::BF16)
            && input.device is Cuda,
        masked is Ok <==> plain is Ok,
        fused is Ok <==> plain is Ok,
{
}

/// An address with room for one 32-bit position on the context's device.
pub open spec fn is_position(position: CudaDeviceAddress, ctx: CudaContext) -> bool {
    position.device == ctx.device_id && position.len >= 4
}

/// Decode softmax reads a row of scores for each head and the position of the call.
pub proof fn lemma_decode_softmax_reads_each_head(
    ctx: CudaContext,
    scores: CudaBuffer,
    output: CudaBuffer,
    cols: usize,
    heads: usize,
    position: CudaDeviceAddress,
    result: Result<DecodeSoftmax, Error>,
    memory: spec_fn(int) -> int,
    soft: spec_fn(Seq<int>, int) -> Seq<int>,
    h: int,
)
    requires
        call_ensures(softmax_f32_into, (&ctx, &scores, &output, cols, heads, position), result),
        cols <= u32::MAX,
        heads <= u32::MAX,
    ensures
        result matches Ok(launch) ==> {
            &&& soft(
                row(memory, launch.scores as int, 4, h * launch.cols, launch.cols as int),
                memory(launch.position as int),
            ) == soft(
                row(memory, scores.address as int, 4, h * cols, cols as int),
                memory(position.address as int),
            )
            &&& launch.heads == heads
            &&& launch.output == output.address
        },
        result is Ok <==> {
            &&& heads > 0 && cols > 0
            &&& has_room(scores, ctx.device_id, heads * cols, 4)
            &&& has_room(output, ctx.device_id, heads * cols, 4)
            &&& is_position(position, ctx)
        },
{
    lemma_product2(heads, cols);
    assert(seq![heads, cols][0] == heads && seq![heads, cols][1] == cols);
}

/// Element `c` of head `h` of a decode step over a cache `[kv_heads, max_seq_len, head_dim]`:
/// the values of the keys up to the position, weighed by the softmax of their scores.
pub open spec fn decoded_attention(
    memory: spec_fn(int) -> int,
    soft: spec_fn(Seq<int>, u32) -> Seq<int>,
    query: int,
    key_cache: int,
    value_cache: int,
    heads: int,
    kv_heads: int,
    head_dim: int,
    max_seq_len: int,
    scale: u32,
    position: int,
    h: int,
    c: int,
) -> int {
    let g = h / (heads / kv_heads);
    let keys = memory(position) + 1;
    let q = row(memory, query, 2, h * head_dim, head_dim);
    let scores = Seq::new(
        keys as nat,
        |j: int|
            inner(
                q,
                row(memory, key_cache, 2, (g * max_seq_len + j) * head_dim, head_dim),
            ),
    );
    inner(
        soft(scores, scale),
        Seq::new(
            keys as nat,
            |j: int| element(memory, value_cache, 2, (g * max_seq_len + j) * head_dim + c),
        ),
    )
}

/// Flash attention of a decode step attends to the caches of the call.
pub proof fn lemma_flash_decode_attends(
    ctx: CudaContext,
    query: CudaBuffer,
    key_cache: CudaBuffer,
    value_cache: CudaBuffer,
    output: CudaBuffer,
    extents: DecodeExtents,
    factor: u32,
    position: CudaDeviceAddress,
    result: Result<FlashDecode, Error>,
    memory: spec_fn(int) -> int,
    soft: spec_fn(Seq<int>, u32) -> Seq<int>,
    h: int,
    c: int,
)
    requires
        call_ensures(
            flash_bf16_into,
            (&ctx, &query, &key_cache, &value_cache, &output, &extents, factor, position),
            result,
        ),
        extents.heads <= u32::MAX,
        extents.kv_heads <= u32::MAX,
        extents.head_dim <= u32::MAX,
        extents.max_seq_len <= u32::MAX,
    ensures
        result matches Ok(launch) ==> {
            &&& decoded_attention(
                memory,
                soft,
                launch.query as int,
                launch.key_cache as int,
                launch.value_cache as int,
                launch.heads as int,
                launch.kv_heads as int,
                launch.head_dim as int,
                launch.max_seq_len as int,
                launch.scale,
                launch.position as int,
                h,
                c,
            ) == decoded_attention(
                memory,
                soft,
                query.address as int,
                key_cache.address as int,
                value_cache.address as int,
                extents.heads as int,
                extents.kv_heads as int,
                extents.head_dim as int,
                extents.max_seq_len as int,
                factor,
                position.address as int,
                h,
                c,
            )
            &&& launch.output == output.address
            &&& launch.heads == extents.heads
            &&& launch.bucket_kv_len == extents.bucket_kv_len
        },
        result is Ok <==> {
            let rows = extents.heads * extents.head_dim;
            let cells = extents.kv_heads * extents.max_seq_len * extents.head_dim;
            &&& factor % 0x8000_0000 < 0x7f80_0000
            &&& extents.heads > 0 && extents.kv_heads > 0 && extents.heads as int
                % extents.kv_heads as int == 0
            &&& extents.bucket_kv_len <= extents.max_seq_len
            &&& extents.max_seq_len > 0 && extents.head_dim > 0
            &&& has_room(query, ctx.device_id, rows, 2)
            &&& has_room(output, ctx.device_id, rows, 2)
            &&& has_room(key_cache, ctx.device_id, cells, 2)
            &&& has_room(value_cache, ctx.device_id, cells, 2)
            &&& is_position(position, ctx)
        },
{
    let one = seq![extents.heads, extents.head_dim];
    let all = seq![extents.kv_heads, extents.max_seq_len, extents.head_dim];
    lemma_product2(extents.heads, extents.head_dim);
    lemma_product3(all);
    assert(one[0] == extents.heads && one[1] == extents.head_dim);
    assert(all[0] == extents.kv_heads && all[1] == extents.max_seq_len && all[2]
        == extents.head_dim);
}

/// One token is appended to the cache of the call at the position of the call.
pub proof fn lemma_append_at_keeps_places(
    ctx: CudaContext,
    dtype: DType,
    cache: CudaBuffer,
    input: CudaBuffer,
    kv_heads: usize,
    head_dim: usize,
    max_seq_len: usize,
    position: CudaDeviceAddress,
    result: Result<AppendAt, Error>,
)
    requires
        call_ensures(
            append_at,
            (&ctx, dtype, &cache, &input, kv_heads, head_dim, max_seq_len, position),
            result,
        ),
        kv_heads <= u32::MAX,
        head_dim <= u32::MAX,
        max_seq_len <= u32::MAX,
    ensures
        result matches Ok(launch) ==> {
            &&& launch.cache == cache.address
            &&& launch.input == input.address
            &&& launch.position == position.address
            &&& launch.dtype == dtype
            &&& launch.kv_heads == kv_heads && launch.head_dim == head_dim && launch.max_seq_len
                == max_seq_len
        },
        result is Ok <==> {
            let w = dtype_size(dtype) as int;
            &&& dtype == DType::F32 || dtype == DType::BF16
            &&& kv_heads > 0 && head_dim > 0 && max_seq_len > 0
            &&& has_room(cache, ctx.device_id, kv_heads * max_seq_len * head_dim, w)
            &&& has_room(input, ctx.device_id, kv_heads * head_dim, w)
            &&& is_position(position, ctx)
        },
{
    let one = seq![kv_heads, head_dim];
    let all = seq![kv_heads, max_seq_len, head_dim];
    lemma_product2(kv_heads, head_dim);
    lemma_product3(all);
    assert(one[0] == kv_heads && one[1] == head_dim);
    assert(all[0] == kv_heads && all[1] == max_seq_len && all[2] == head_dim);
}

/// Rows are appended to the cache of the call behind those that are filled.
pub proof fn lemma_append_keeps_places(
    cache: CudaBuffer,
    rows: Tensor,
    n_kv_heads: usize,
    head_dim: usize,
    max_seq_len: usize,
    seq_len: usize,
    append_len: usize,
    result: Result<AppendRows, Error>,
)
    requires
        call_ensures(
            append,
            (&cache, &rows, n_kv_heads, head_dim, max_seq_len, seq_len, append_len),
            result,
        ),
        n_kv_heads <= u32::MAX,
        head_dim <= u32::MAX,
        max_seq_len <= u32::MAX,
        seq_len <= u32::MAX,
        append_len <= u32::MAX,
    ensures
        result matches Ok(launch) ==> {
            &&& launch.cache == cache.address
            &&& launch.input == rows.buffer.address
            &&& launch.dtype == rows.dtype
            &&& launch.kv_heads == n_kv_heads && launch.head_dim == head_dim
            &&& launch.max_seq_len == max_seq_len
            &&& launch.seq_len == seq_len && launch.append_len == append_len
        },
        result is Ok <==> (rows.dtype == DType::F32 || rows.dtype == DType::BF16)
            && rows.device is Cuda,
{
}

/// The copy takes every row of a prefix to the same row of a cache of `total_rows` rows.
pub open spec fn copies_prefix(
    copy: PrefixCopy,
    dtype: DType,
    prefix: Tensor,
    total_rows: int,
) -> bool {
    &&& copy.source == prefix.buffer.address
    &&& copy.bytes == prefix.dims@[0] * prefix.dims@[1] * 2
    &&& is_output(copy.output, dtype, total_rows, prefix.dims@[1] as int)
}

/// A prefix with room behind it.
pub open spec fn reservable(dtype: DType, prefix: Tensor, total_rows: int) -> bool {
    &&& prefix.dtype == dtype && prefix.device is Cuda && prefix.dims@.len() == 2
    &&& prefix.dims@[0] <= total_rows
    &&& total_rows * prefix.dims@[1] * 2 <= usize::MAX
}

/// BF16 and FP16 caches start with their prefix.
pub proof fn lemma_prefix_is_copied_whole(
    prefix: Tensor,
    total_rows: usize,
    wide: Result<PrefixCopy, Error>,
    half: Result<PrefixCopy, Error>,
)
    requires
        call_ensures(reserve_prefix_bf16, (&prefix, total_rows), wide),
        call_ensures(reserve_prefix_f16, (&prefix, total_rows), half),
    ensures
        wide matches Ok(copy) ==> copies_prefix(copy, DType::BF16, prefix, total_rows as int),
        half matches Ok(copy) ==> copies_prefix(copy, DType::F16, prefix, total_rows as int),
        wide is Ok <==> reservable(DType::BF16, prefix, total_rows as int),
        half is Ok <==> reservable(DType::F16, prefix, total_rows as int),
{
    if prefix.dims@.len() == 2 {
        let (a, b, n) = (prefix.dims@[0] as int, prefix.dims@[1] as int, total_rows as int);
        lemma_size(a, b);
        lemma_size(n, b);
        if a <= n {
            assert(a * b <= n * b) by (nonlinear_arith)
                requires
                    0 <= a <= n,
                    b >= 0,
            ;
        }
    }
}

} // verus!
