//! Sizes, places and switches that every plan starts from.

use super::memory::has_room;
use crate::context::CudaContext;
use crate::error::Error;
use crate::kernels::attention::fa2::fa2_splitkv_enabled;
use crate::kernels::attention::features::{vision_fa2_enabled, AttentionBuild, AttentionSwitches};
use crate::kernels::attention::split::{key_tile_rows, tile_count};
use crate::kernels::contracts::{
    allocate_matrix, bf16_output, checked_bytes, checked_matrix_bytes, f16_output, finite_bits,
    fp8_output, gpu_ptr, is_positive, lemma_product3, matrix_shape, numel, optional_ptr, product,
    require_address, require_buffer, require_device, same_dims, tensor_bytes, MatrixOutput,
};
use crate::kernels::elementwise::{
    gather_rows_bf16, prepare_row_indices, rows_problem, scatter_rows_bf16, RowIndices,
};
use crate::kernels::gemm::packed::{enabled, min_packed_width};
use crate::kernels::gemm::w4a16::{AwqWeightView, GemvSlots};
use crate::text::{parsed_unsigned, EnvironmentValue};
use crate::types::{CudaBuffer, CudaDeviceAddress, DType, Device, Tensor};
use vstd::prelude::*;

verus! {

/// A buffer or an address is accepted exactly where it has room on the context's device.
pub proof fn lemma_operands_have_room(
    ctx: CudaContext,
    operation: &'static str,
    name: &'static str,
    buffer: CudaBuffer,
    address: CudaDeviceAddress,
    required: usize,
    got: Device,
    by_buffer: Result<(), Error>,
    by_address: Result<(), Error>,
    by_device: Result<(), Error>,
)
    requires
        call_ensures(require_buffer, (&ctx, operation, name, &buffer, required), by_buffer),
        call_ensures(require_address, (&ctx, operation, name, address, required), by_address),
        call_ensures(require_device, (&ctx, got), by_device),
    ensures
        by_buffer is Ok <==> has_room(buffer, ctx.device_id, required as int, 1),
        by_address is Ok <==> address.device == ctx.device_id && required <= address.len,
        by_device is Ok <==> got == Device::Cuda(ctx.device_id),
{
}

/// A part of a buffer lies inside it, so many bytes after its start, on its device.
pub proof fn lemma_slices_stay_inside(
    buffer: CudaBuffer,
    offset: usize,
    len: usize,
    result: Result<CudaBuffer, Error>,
)
    requires
        call_ensures(CudaBuffer::slice, (&buffer, offset, len), result),
        buffer.address + buffer.len <= usize::MAX,
    ensures
        result matches Ok(part) ==> {
            &&& part.address == buffer.address + offset && part.len == len
            &&& part.device == buffer.device
            &&& part.address + part.len <= buffer.address + buffer.len
        },
        result is Ok <==> offset + len <= buffer.len,
{
}

/// Elements have one, two, four or eight bytes.
pub proof fn lemma_elements_have_their_width(dtype: DType, size: usize)
    requires
        call_ensures(DType::size_in_bytes, (dtype,), size),
    ensures
        size == 1 <==> dtype == DType::F8E4M3,
        size == 2 <==> dtype == DType::F16 || dtype == DType::BF16,
        size == 4 <==> dtype == DType::F32 || dtype == DType::I32,
        size == 8 <==> dtype == DType::I64,
{
}

/// Bits are those of a finite float where the exponent is not all ones, and of one above zero
/// where besides the sign is clear and some bit is set.
pub proof fn lemma_finite_scalars_are_told_by_their_bits(bits: u32, positive: bool)
    requires
        call_ensures(is_positive, (bits,), positive),
    ensures
        finite_bits(bits) <==> bits / 0x80_0000 % 0x100 != 0xff,
        positive <==> finite_bits(bits) && bits / 0x8000_0000 == 0 && bits != 0,
{
    lemma_exponent(bits);
}

proof fn lemma_exponent(bits: u32)
    ensures
        bits / 0x80_0000 % 0x100 != 0xff <==> bits % 0x8000_0000 < 0x7f80_0000,
        bits / 0x8000_0000 == 0 <==> bits < 0x8000_0000,
{
    assert(bits / 0x80_0000 % 0x100 != 0xff <==> bits % 0x8000_0000 < 0x7f80_0000) by (bit_vector);
}

/// The sizes of dense results: rows times columns times the width of an element, or an error
/// where that is no machine word.
pub proof fn lemma_results_have_their_size(
    rows: usize,
    cols: usize,
    width: usize,
    text: &'static str,
    any: Result<usize, Error>,
    wide: Result<usize, Error>,
    half: Result<usize, Error>,
    narrow: Result<usize, Error>,
    brain: Result<MatrixOutput, Error>,
    half_matrix: Result<MatrixOutput, Error>,
)
    requires
        width >= 1,
        call_ensures(checked_matrix_bytes, (rows, cols, width, text), any),
        call_ensures(bf16_output, (rows, cols), wide),
        call_ensures(f16_output, (rows, cols), half),
        call_ensures(fp8_output, (rows, cols), narrow),
        call_ensures(allocate_matrix, (DType::BF16, rows, cols), brain),
        call_ensures(allocate_matrix, (DType::F16, rows, cols), half_matrix),
    ensures
        any matches Ok(bytes) ==> bytes == rows * cols * width,
        any is Ok <==> rows * cols * width <= usize::MAX,
        wide matches Ok(bytes) ==> bytes == 2 * (rows * cols),
        half matches Ok(bytes) ==> bytes == 2 * (rows * cols),
        narrow matches Ok(bytes) ==> bytes == rows * cols,
        wide is Ok <==> 2 * (rows * cols) <= usize::MAX,
        half is Ok <==> 2 * (rows * cols) <= usize::MAX,
        narrow is Ok <==> rows * cols <= usize::MAX,
        brain matches Ok(output) ==> {
            &&& output.dtype == DType::BF16 && output.rows == rows && output.cols == cols
            &&& output.bytes == 2 * (rows * cols)
        },
        half_matrix matches Ok(output) ==> {
            &&& output.dtype == DType::F16 && output.rows == rows && output.cols == cols
            &&& output.bytes == 2 * (rows * cols)
        },
        brain is Ok <==> 2 * (rows * cols) <= usize::MAX,
        half_matrix is Ok <==> 2 * (rows * cols) <= usize::MAX,
{
    assert(0 <= rows * cols) by (nonlinear_arith);
    let p = rows * cols;
    assert(0 <= p * width) by (nonlinear_arith)
        requires
            0 <= p,
    ;
}

/// A tensor with one more extent has so many times as many elements; a tensor without extents
/// has one.
pub proof fn lemma_elements_multiply(
    tensor: Tensor,
    inner: Tensor,
    count: usize,
    fewer: usize,
    bytes: usize,
    size: usize,
)
    requires
        call_ensures(numel, (&tensor,), count),
        call_ensures(numel, (&inner,), fewer),
        call_ensures(tensor_bytes, (&tensor,), bytes),
        call_ensures(DType::size_in_bytes, (tensor.dtype,), size),
        tensor.dims@.len() > 0,
        inner.dims@ == tensor.dims@.drop_last(),
    ensures
        count == fewer * tensor.dims@.last(),
        bytes == count * size,
        inner.dims@.len() == 0 ==> fewer == 1,
{
}

/// A dense block has a size where its elements are floats, no extent is zero and the size is a
/// machine word.
pub proof fn lemma_blocks_have_their_size(
    dtype: DType,
    dims: &[usize],
    operation: &'static str,
    result: Result<usize, Error>,
    size: usize,
)
    requires
        call_ensures(checked_bytes, (dtype, dims, operation), result),
        call_ensures(DType::size_in_bytes, (dtype,), size),
        dims@.len() == 3,
    ensures
        result matches Ok(bytes) ==> bytes == dims@[0] * dims@[1] * dims@[2] * size,
        result is Ok <==> {
            &&& dtype == DType::F32 || dtype == DType::F16 || dtype == DType::BF16
            &&& dims@[0] != 0 && dims@[1] != 0 && dims@[2] != 0
            &&& dims@[0] * dims@[1] * dims@[2] * size <= usize::MAX
        },
{
    lemma_product3(dims@);
    let p = product(dims@) as int;
    assert(0 <= p * size) by (nonlinear_arith)
        requires
            0 <= p,
    ;
    if !(exists|i: int| 0 <= i < dims@.len() && #[trigger] dims@[i] == 0) {
        assert(dims@[0] != 0 && dims@[1] != 0 && dims@[2] != 0);
    }
}

/// A matrix shows its rows before its columns; extents are the same where all of them are.
pub proof fn lemma_matrices_show_rows_first(
    tensor: Tensor,
    operation: &'static str,
    result: Result<(usize, usize), Error>,
    a: Vec<usize>,
    b: Vec<usize>,
    same: bool,
)
    requires
        call_ensures(matrix_shape, (&tensor, operation), result),
        call_ensures(same_dims, (&a, &b), same),
    ensures
        result matches Ok((rows, cols)) ==> rows == tensor.dims@[0] && cols == tensor.dims@[1],
        result is Ok <==> tensor.dims@.len() == 2,
        same <==> a@.len() == b@.len() && forall|i: int|
            0 <= i < a@.len() ==> #[trigger] a@[i] == b@[i],
{
    if a@.len() == b@.len() && (forall|i: int| 0 <= i < a@.len() ==> #[trigger] a@[i] == b@[i]) {
        assert(a@ =~= b@);
    }
}

/// A tensor in device memory has its buffer's address, and nothing has the address zero.
pub proof fn lemma_pointers_are_addresses(
    tensor: Tensor,
    optional: Option<&Tensor>,
    pointer: Result<usize, Error>,
    result: Result<usize, Error>,
)
    requires
        call_ensures(gpu_ptr, (&tensor,), pointer),
        call_ensures(optional_ptr, (optional,), result),
    ensures
        pointer matches Ok(address) ==> address == tensor.buffer.address,
        pointer is Ok <==> tensor.device is Cuda,
        optional is None ==> result == Ok::<usize, Error>(0),
        optional matches Some(tensor) ==> {
            &&& result matches Ok(address) ==> address == tensor.buffer.address
            &&& result is Ok <==> tensor.device is Cuda
        },
{
}

proof fn lemma_rows_are_checked(rows: Seq<usize>, input_rows: usize)
    ensures
        rows_problem(rows, input_rows) is None <==> forall|i: int|
            0 <= i < rows.len() ==> #[trigger] rows[i] < input_rows && rows[i] <= u32::MAX,
    decreases rows.len(),
{
    if rows.len() > 0 {
        let rest = rows.skip(1);
        lemma_rows_are_checked(rest, input_rows);
        if rows_problem(rows, input_rows) is None {
            assert forall|i: int| 0 <= i < rows.len() implies #[trigger] rows[i] < input_rows
                && rows[i] <= u32::MAX by {
                if i > 0 {
                    assert(rows[i] == rest[i - 1]);
                }
            }
        } else if forall|i: int|
            0 <= i < rows.len() ==> #[trigger] rows[i] < input_rows && rows[i] <= u32::MAX {
            assert(rows[0] < input_rows);
            assert forall|i: int| 0 <= i < rest.len() implies #[trigger] rest[i] < input_rows
                && rest[i] <= u32::MAX by {
                assert(rest[i] == rows[i + 1]);
            }
        }
    }
}

/// Whether some rows can be selected from a matrix.
pub open spec fn selectable(rows: Seq<usize>, input_rows: int) -> bool {
    &&& 0 < rows.len() && rows.len() * 4 <= usize::MAX
    &&& forall|i: int|
        0 <= i < rows.len() ==> #[trigger] rows[i] < input_rows && rows[i] <= u32::MAX
}

/// Selected rows keep their order. A gather may name a row twice; a scatter may not, and has a
/// source row for each.
pub proof fn lemma_selected_rows_keep_their_order(
    input: Tensor,
    source: Tensor,
    rows: &[usize],
    input_rows: usize,
    prepared: Result<RowIndices, Error>,
    gathered: Result<RowIndices, Error>,
    scattered: Result<RowIndices, Error>,
    i: int,
)
    requires
        call_ensures(prepare_row_indices, (rows, input_rows), prepared),
        call_ensures(gather_rows_bf16, (&input, rows), gathered),
        call_ensures(scatter_rows_bf16, (&input, rows, &source), scattered),
        0 <= i < rows@.len(),
    ensures
        prepared matches Ok(list) ==> list.indices@.len() == rows@.len() && list.indices@[i]
            == rows@[i] && list.matrix_rows == input_rows && (list.unique
            <==> rows@.no_duplicates()),
        gathered matches Ok(list) ==> list.indices@.len() == rows@.len() && list.indices@[i]
            == rows@[i] && list.matrix_rows == input.dims@[0] && (list.unique
            <==> rows@.no_duplicates()),
        scattered matches Ok(list) ==> list.indices@.len() == rows@.len() && list.indices@[i]
            == rows@[i] && list.matrix_rows == input.dims@[0] && rows@.no_duplicates(),
        prepared is Ok <==> selectable(rows@, input_rows as int),
        gathered is Ok <==> input.dtype == DType::BF16 && input.dims@.len() == 2 && selectable(
            rows@,
            input.dims@[0] as int,
        ),
        scattered is Ok <==> {
            &&& input.dtype == DType::BF16 && source.dtype == DType::BF16
            &&& input.dims@.len() == 2 && source.dims@.len() == 2
            &&& source.dims@[0] == rows@.len() && source.dims@[1] == input.dims@[1]
            &&& rows@.no_duplicates() && selectable(rows@, input.dims@[0] as int)
        },
{
    lemma_rows_are_checked(rows@, input_rows);
    if input.dims@.len() == 2 {
        lemma_rows_are_checked(rows@, input.dims@[0]);
    }
    if selectable(rows@, input_rows as int) {
        assert(rows@[i] <= u32::MAX);
    }
    if input.dims@.len() == 2 && selectable(rows@, input.dims@[0] as int) {
        assert(rows@[i] <= u32::MAX);
    }
}

/// Whether a variable has the given text.
pub open spec fn is_text(value: Option<&str>, text: Seq<char>) -> bool {
    value matches Some(found) && found@ == text
}

/// Packed decoding is off unless a variable says `1`, `on` or `true`; a variable with a number
/// moves the narrowest width that is packed.
pub proof fn lemma_packed_decoding_is_asked_for(
    value: Option<&str>,
    on: bool,
    width_value: Option<&str>,
    width: usize,
    n: usize,
)
    requires
        call_ensures(enabled, (value,), on),
        call_ensures(min_packed_width, (width_value,), width),
    ensures
        on <==> is_text(value, seq!['1']) || is_text(value, seq!['o', 'n']) || is_text(
            value,
            seq!['t', 'r', 'u', 'e'],
        ),
        width_value is None ==> width == 36864,
        width_value matches Some(text) ==> (parsed_unsigned(text@, usize::MAX as nat) == Some(
            n as nat,
        ) ==> width == n),
        width_value matches Some(text) ==> (parsed_unsigned(text@, usize::MAX as nat) is None
            ==> width == 36864),
{
    reveal_strlit("1");
    reveal_strlit("on");
    reveal_strlit("true");
    assert("1"@ =~= seq!['1']);
    assert("on"@ =~= seq!['o', 'n']);
    assert("true"@ =~= seq!['t', 'r', 'u', 'e']);
}

/// The head-64 specialisation is on unless its variable says `0` or `false`.
pub proof fn lemma_vision_specialisation_is_on(value: EnvironmentValue, on: bool)
    requires
        call_ensures(vision_fa2_enabled, (&value,), on),
    ensures
        !on <==> (value matches EnvironmentValue::Text(text) && (text@ == seq!['0'] || text@ == seq![
            'f',
            'a',
            'l',
            's',
            'e',
        ])),
{
    reveal_strlit("0");
    reveal_strlit("false");
    assert("0"@ =~= seq!['0']);
    assert("false"@ =~= seq!['f', 'a', 'l', 's', 'e']);
}

/// A short query is split along the keys where it is no switch's loss: at most 64 rows, more
/// keys than rows, shared key heads, and a head of 128 or 256. A longer query, or one head more
/// for the keys, never gains a split.
pub proof fn lemma_short_queries_split(
    build: AttentionBuild,
    switches: AttentionSwitches,
    query_tokens: usize,
    key_tokens: usize,
    query_heads: usize,
    kv_heads: usize,
    head_dim: usize,
    on: bool,
    fa2: bool,
)
    requires
        call_ensures(
            fa2_splitkv_enabled,
            (&switches, query_tokens, key_tokens, query_heads, kv_heads, head_dim),
            on,
        ),
        call_ensures(AttentionBuild::fa2, (&build,), fa2),
    ensures
        on ==> !switches.no_splitkv,
        on ==> query_tokens <= 64 && query_tokens < key_tokens,
        on ==> kv_heads < query_heads,
        on ==> head_dim == 128 || head_dim == 256,
        !on ==> switches.no_splitkv || query_tokens > 64 || key_tokens <= query_tokens || query_heads
            <= kv_heads || (head_dim != 128 && head_dim != 256),
        fa2 <==> build.fa2_sm80 || build.fa2_f16_sm100,
{
}

/// Tiles cover what they are counted for, and none of them is to spare. Wider heads have
/// shorter key tiles.
pub proof fn lemma_tiles_cover_their_rows(
    n: usize,
    tile: usize,
    count: usize,
    head_dim: usize,
    wider: usize,
    rows: usize,
    fewer: usize,
)
    requires
        tile > 0,
        call_ensures(tile_count, (n, tile), count),
        call_ensures(key_tile_rows, (head_dim,), rows),
        call_ensures(key_tile_rows, (wider,), fewer),
        head_dim <= wider,
    ensures
        super::splitting::is_cover(n as int, tile as int, count as int),
        fewer <= rows,
        rows == 256 <==> head_dim <= 64,
        rows >= 128 <==> head_dim <= 128,
        rows >= 64,
        rows == 256 || rows == 128 || rows == 64,
{
    let (a, b) = (n as int, tile as int);
    let q = (a + b - 1) / b;
    assert(b * (q - 1) < a <= b * q) by (nonlinear_arith)
        requires
            q == (a + b - 1) / b,
            b > 0,
    ;
}

/// A packed linear keeps eight columns in a word: a word of weights for every input row, a word
/// of zero points for every group of rows, and a scale for every column of a group.
pub proof fn lemma_packed_linear_counts_its_words(
    view: AwqWeightView,
    cols: usize,
    groups: usize,
    words: usize,
    zeros: usize,
    scales: usize,
)
    requires
        call_ensures(AwqWeightView::packed_cols, (&view,), cols),
        call_ensures(AwqWeightView::groups, (&view,), groups),
        call_ensures(AwqWeightView::qweight_words, (&view,), words),
        call_ensures(AwqWeightView::qzeros_words, (&view,), zeros),
        call_ensures(AwqWeightView::scales_elements, (&view,), scales),
        view.out_dim % 8 == 0,
        view.group_size > 0,
        view.in_dim % view.group_size == 0,
    ensures
        8 * cols == view.out_dim,
        groups * view.group_size == view.in_dim,
        8 * words == view.in_dim * view.out_dim,
        8 * zeros == groups * view.out_dim,
        scales == groups * view.out_dim,
{
    let (k, n, g) = (view.in_dim as int, view.out_dim as int, view.group_size as int);
    vstd::arithmetic::div_mod::lemma_fundamental_div_mod(k, g);
    assert(g * (k / g) == k / g * g) by (nonlinear_arith);
    let (c, r) = (n / 8, k / g);
    assert(8 * (k * c) == k * n && 8 * (r * c) == r * n) by (nonlinear_arith)
        requires
            n == 8 * c,
    ;
}

/// A single linear is one expert, and a dense product one slot that takes it.
pub proof fn lemma_dense_product_has_one_expert(
    qweight: CudaBuffer,
    qzeros: CudaBuffer,
    scales: CudaBuffer,
    in_dim: usize,
    out_dim: usize,
    group_size: usize,
    view: AwqWeightView,
    slots: GemvSlots,
)
    requires
        call_ensures(
            AwqWeightView::single,
            (qweight, qzeros, scales, in_dim, out_dim, group_size),
            view,
        ),
        call_ensures(GemvSlots::dense, (), slots),
    ensures
        view.qweight == qweight && view.qzeros == qzeros && view.scales == scales,
        view.in_dim == in_dim && view.out_dim == out_dim && view.group_size == group_size,
        view.experts == 1 && view.stride_q == 0 && view.stride_z == 0 && view.stride_s == 0,
        slots.slots == view.experts && slots.expert_ids is None && slots.slot_scale is None
            && !slots.per_slot_activation,
{
}

} // verus!
