//! Products of quantized operands.

use super::memory::element;
use super::products::{
    has_extents, launched_address, launched_entry, lemma_call_is_product, matrix, product_entry,
    transposed,
};
use crate::context::CudaContext;
use crate::cublas::CublasHandle;
use crate::device_caps::CudaArchFamily;
use crate::error::Error;
use crate::kernels::gemm::w8a8::{
    gemm_w8a8, gemm_w8a8_advance, gemm_w8a8_launch, gemm_w8a8_start, launch_w8a8_tactic,
    W8A8Buffers, W8A8Launch, W8A8Request, W8A8Stage, W8A8WeightView,
};
use crate::tuning::{
    BuildFeatures, Epilogue, GemmLayout, GemmOp, GemmTuningKey, ScaleMode, TacticBackend, TacticId,
    TuningDType,
};
use crate::types::{DType, Device, Tensor};
use vstd::prelude::*;

verus! {

/// The key of an `m` by `n` product over `k` terms on the device of a context.
pub open spec fn is_key_of(key: GemmTuningKey, ctx: CudaContext, m: int, n: int, k: int) -> bool {
    &&& key.m == m && key.n == n && key.k == k
    &&& key.device.sm == ctx.caps.sm
    &&& key.device.multiprocessor_count == ctx.caps.multiprocessor_count
    &&& key.workspace_limit == usize::MAX
}

/// The integer accumulated for the entry `(i, j)`.
pub open spec fn accumulated(launch: W8A8Launch, memory: spec_fn(int) -> int, i: int, j: int) -> int {
    match launch {
        W8A8Launch::Vendor { gemm, .. } => launched_entry(gemm->GemmEx_0, memory, 0, 0, i, j),
        W8A8Launch::Cutlass { quantized, weights, dims, .. } => product_entry(
            matrix(memory, quantized as int, 1, dims.k as int),
            transposed(matrix(memory, weights as int, 1, dims.k as int)),
            dims.k as int,
            i,
            j,
        ),
    }
}

/// The entry `(i, j)` that a launch leaves: the accumulated integer times the scale
/// of its row and the scale of its channel.
pub open spec fn dequantized(launch: W8A8Launch, memory: spec_fn(int) -> int, i: int, j: int) -> int {
    let (row_scales, weight_scales) = match launch {
        W8A8Launch::Vendor { row_scales, weight_scales, .. } => (row_scales, weight_scales),
        W8A8Launch::Cutlass { row_scales, weight_scales, .. } => (row_scales, weight_scales),
    };
    accumulated(launch, memory, i, j) * element(memory, row_scales as int, 4, i) * element(
        memory,
        weight_scales as int,
        4,
        j,
    )
}

/// Where a launch leaves the entry `(i, j)`.
pub open spec fn dequantized_address(launch: W8A8Launch, i: int, j: int) -> int {
    match launch {
        W8A8Launch::Vendor { output, n, .. } => output + (i * n + j) * 2,
        W8A8Launch::Cutlass { output, dims, .. } => output + (i * dims.n + j) * 2,
    }
}

/// The steps of a launch hand on what they compute: the accumulators are read where
/// the integer product was stored, and the extents are those of the product.
pub open spec fn is_connected(launch: W8A8Launch, m: int, n: int, k: int, i: int, j: int) -> bool {
    match launch {
        W8A8Launch::Vendor { gemm, accumulators, m: rows, n: cols, .. } => {
            &&& gemm is GemmEx
            &&& has_extents(gemm->GemmEx_0, m, n, k)
            &&& launched_address(gemm->GemmEx_0, 0, i, j) == accumulators + (i * cols + j) * 4
            &&& rows == m && cols == n
        },
        W8A8Launch::Cutlass { dims, .. } => dims.m == m && dims.n == n && dims.k == k,
    }
}

/// A launch computes `sum_l quantized[i, l] * weights[j, l]` times the scale of row `i`
/// and the scale of channel `j`.
pub open spec fn is_w8a8_product(
    launch: W8A8Launch,
    buffers: W8A8Buffers,
    m: int,
    n: int,
    k: int,
    memory: spec_fn(int) -> int,
    i: int,
    j: int,
) -> bool {
    &&& is_connected(launch, m, n, k, i, j)
    &&& dequantized(launch, memory, i, j) == product_entry(
        matrix(memory, buffers.quantized.address as int, 1, k),
        transposed(matrix(memory, buffers.weights.address as int, 1, k)),
        k,
        i,
        j,
    ) * element(memory, buffers.row_scales.address as int, 4, i) * element(
        memory,
        buffers.weight_scales.address as int,
        4,
        j,
    )
    &&& dequantized_address(launch, i, j) == buffers.output.address + (i * n + j) * 2
    &&& launch matches W8A8Launch::Vendor { accumulators, .. } ==> accumulators
        == buffers.accumulators.address
}

proof fn lemma_launch_is_product(
    launch: W8A8Launch,
    buffers: W8A8Buffers,
    k: int,
    memory: spec_fn(int) -> int,
    i: int,
    j: int,
)
    requires
        launch matches W8A8Launch::Vendor { gemm, .. } ==> gemm
            == crate::cublas::int8_call(
            launch->Vendor_m as usize,
            launch->Vendor_n as usize,
            k as usize,
            buffers.quantized,
            buffers.weights,
            buffers.accumulators,
        ),
        launch matches W8A8Launch::Cutlass { quantized, weights, dims, .. } ==> quantized
            == buffers.quantized.address && weights == buffers.weights.address && dims.k == k,
        0 <= k <= i32::MAX,
    ensures
        accumulated(launch, memory, i, j) == product_entry(
            matrix(memory, buffers.quantized.address as int, 1, k),
            transposed(matrix(memory, buffers.weights.address as int, 1, k)),
            k,
            i,
            j,
        ),
{
    if let W8A8Launch::Vendor { gemm, .. } = launch {
        lemma_call_is_product(
            gemm->GemmEx_0,
            memory,
            0,
            0,
            matrix(memory, buffers.quantized.address as int, 1, k),
            transposed(matrix(memory, buffers.weights.address as int, 1, k)),
            i,
            j,
        );
    }
}

/// Whichever tactic runs, a launch is the scaled product of its buffers. A tactic
/// that runs is the vendor's or the tile's.
pub proof fn lemma_w8a8_tactics_scale_alike(
    build: BuildFeatures,
    cublas: CublasHandle,
    key: GemmTuningKey,
    buffers: W8A8Buffers,
    tactic: TacticId,
    result: Result<W8A8Launch, Error>,
    memory: spec_fn(int) -> int,
    i: int,
    j: int,
)
    requires
        call_ensures(launch_w8a8_tactic, (&build, &cublas, &key, &buffers, tactic), result),
        key.m <= i32::MAX,
        key.n <= i32::MAX,
        key.k <= i32::MAX,
    ensures
        result matches Ok(launch) ==> {
            &&& is_w8a8_product(
                launch,
                buffers,
                key.m as int,
                key.n as int,
                key.k as int,
                memory,
                i,
                j,
            )
            &&& launch is Vendor <==> tactic.backend == TacticBackend::Vendor
            &&& launch is Cutlass <==> tactic.backend == TacticBackend::Cutlass
            &&& launch is Cutlass ==> build.cutlass_int8_sm80
            &&& launch is Vendor ==> key.m * key.k <= buffers.quantized.len && key.n * key.k
                <= buffers.weights.len && key.m * key.n * 4 <= buffers.accumulators.len
        },
{
    if let Ok(launch) = result {
        lemma_launch_is_product(launch, buffers, key.k as int, memory, i, j);
    }
}

/// Every launch of a stage is the scaled product of its buffers. Only the two launching
/// stages launch, and the tile never refuses.
pub proof fn lemma_w8a8_stages_scale_alike(
    cublas: CublasHandle,
    key: GemmTuningKey,
    buffers: W8A8Buffers,
    stage: W8A8Stage,
    result: Result<Option<W8A8Launch>, Error>,
    memory: spec_fn(int) -> int,
    i: int,
    j: int,
)
    requires
        call_ensures(gemm_w8a8_launch, (&cublas, &key, &buffers, stage), result),
        key.m <= i32::MAX,
        key.n <= i32::MAX,
        key.k <= i32::MAX,
    ensures
        result matches Ok(Some(launch)) ==> {
            &&& is_w8a8_product(
                launch,
                buffers,
                key.m as int,
                key.n as int,
                key.k as int,
                memory,
                i,
                j,
            )
            &&& launch is Vendor <==> stage == W8A8Stage::Vendor
            &&& launch is Cutlass <==> stage == W8A8Stage::Cutlass
        },
        result matches Ok(None) ==> stage != W8A8Stage::Vendor && stage != W8A8Stage::Cutlass,
        result is Err <==> stage == W8A8Stage::Vendor && (key.m * key.k > buffers.quantized.len
            || key.n * key.k > buffers.weights.len || key.m * key.n * 4
            > buffers.accumulators.len),
{
    if let Ok(Some(launch)) = result {
        lemma_launch_is_product(launch, buffers, key.k as int, memory, i, j);
    }
}

/// An accepted product names its own operands, and its buffers have exactly the room
/// that the product needs. It is accepted exactly where the operands conform.
pub proof fn lemma_w8a8_request_names_its_operands(
    build: BuildFeatures,
    ctx: CudaContext,
    activation: Tensor,
    weight: W8A8WeightView<'_>,
    result: Result<W8A8Request, Error>,
)
    requires
        call_ensures(gemm_w8a8, (&build, &ctx, &activation, weight), result),
        activation.dims@.len() == 2 ==> {
            let (m, n, k) = (activation.dims@[0], weight.output_dim, weight.input_dim);
            m * 4 <= usize::MAX && m * k <= usize::MAX && m * n * 4 <= usize::MAX && m <= i32::MAX
                && k <= i32::MAX
        },
    ensures
        result matches Ok(request) ==> {
            let (m, n, k) = (activation.dims@[0], weight.output_dim, weight.input_dim);
            &&& is_key_of(request.key, ctx, m as int, n as int, k as int)
            &&& request.key.op == GemmOp::W8A8
            &&& request.key.activation_dtype == TuningDType::I8
            &&& request.key.weight_dtype == TuningDType::I8
            &&& request.key.output_dtype == TuningDType::Bf16
            &&& request.key.layout == GemmLayout::WeightOutputMajor
            &&& request.key.scale_mode == ScaleMode::DynamicRowPerOutputChannel
            &&& request.key.epilogue == Epilogue::Plain
            &&& request.quantize.activation == activation.buffer.address
            &&& request.quantize.rows == m && request.quantize.cols == k
            &&& request.weights == weight.values_i8
            &&& request.weight_scales == weight.scales_f32.buffer
            &&& request.quantized_bytes == m * k
            &&& request.row_scale_bytes == 4 * m
            &&& request.accumulator_bytes == m * n * 4
            &&& request.output_bytes == m * n * 2
            &&& request.default.value == 0
            &&& request.default.backend == TacticBackend::Cutlass <==> build.cutlass_int8_sm80
                && ctx.caps.arch_family == CudaArchFamily::Sm80
            &&& request.default.backend == TacticBackend::Cutlass || request.default.backend
                == TacticBackend::Vendor
        },
        result is Ok <==> {
            &&& activation.dtype == DType::BF16 && weight.scales_f32.dtype == DType::F32
            &&& activation.device == Device::Cuda(ctx.device_id)
            &&& weight.scales_f32.device == Device::Cuda(ctx.device_id)
            &&& weight.values_i8.device == ctx.device_id
            &&& activation.dims@.len() == 2 && activation.dims@[1] == weight.input_dim
            &&& weight.scales_f32.dims@.len() == 1 && weight.scales_f32.dims@[0]
                == weight.output_dim
            &&& weight.values_i8.len == weight.output_dim * weight.input_dim
        },
{
    let (n, k) = (weight.output_dim, weight.input_dim);
    assert(n * k == k * n) by (nonlinear_arith);
    if activation.dims@.len() == 2 {
        let m = activation.dims@[0];
        let p = m * n;
        assert(0 <= p * 2 <= p * 4) by (nonlinear_arith)
            requires
                p == m * n,
                m >= 0,
                n >= 0,
        ;
        assert(0 <= m * k) by (nonlinear_arith);
    }
}

/// A product starts on the tile only where the build has it, the tactic asks for it
/// and the extents are aligned. A tile that fails gives way to the vendor route, which
/// has the last word.
pub proof fn lemma_w8a8_tile_gives_way(
    build: BuildFeatures,
    key: GemmTuningKey,
    tactic: TacticId,
    start: W8A8Stage,
    tile: bool,
    second: W8A8Stage,
    install: bool,
    third: W8A8Stage,
    vendor: bool,
    last: W8A8Stage,
)
    requires
        call_ensures(gemm_w8a8_start, (&build, &key, tactic), start),
        call_ensures(gemm_w8a8_advance, (start, tile), second),
        call_ensures(gemm_w8a8_advance, (second, install), third),
        call_ensures(gemm_w8a8_advance, (third, vendor), last),
    ensures
        start == W8A8Stage::Cutlass <==> build.cutlass_int8_sm80 && tactic.backend
            == TacticBackend::Cutlass && key.k % 16 == 0 && key.n % 8 == 0,
        start == W8A8Stage::Cutlass || start == W8A8Stage::Vendor,
        start == W8A8Stage::Vendor ==> (last == W8A8Stage::Done <==> tile),
        start == W8A8Stage::Cutlass ==> (last == W8A8Stage::Done <==> tile || (install && vendor)),
        last == W8A8Stage::Done || last == W8A8Stage::Failed,
        start == W8A8Stage::Cutlass && !tile && install ==> third == W8A8Stage::Vendor,
{
}

} // verus!
