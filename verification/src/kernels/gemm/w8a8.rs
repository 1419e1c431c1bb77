//! Dynamic-row-quantized W8A8 matrix products.

use super::super::contracts::{checked_matrix_bytes, unless};
use super::providers;
use super::providers::{native_dims, Dims};
use crate::context::CudaContext;
use crate::cublas::{int8_call, CublasCall, CublasHandle, INT8_TEXT};
use crate::device_caps::CudaArchFamily;
use crate::error::{shape_of, Error, Shape};
use crate::tuning::{
    BuildFeatures, DeviceFingerprint, Epilogue, GemmLayout, GemmOp, GemmTuningKey, ScaleMode,
    TacticBackend, TacticCandidate, TacticId, TuningDType,
};
use crate::types::{CudaBuffer, DType, Device, Tensor};
use vstd::prelude::*;

verus! {

#[derive(Clone, Copy, Debug, PartialEq, Eq, Structural)]
pub enum W8A8ScaleMode {
    DynamicRowPerOutputChannel,
}

#[derive(Clone, Copy, Debug, PartialEq, Eq, Structural)]
pub enum W8A8Layout {
    OutputMajor,
}

/// Borrowed W8A8 weight view prevents values/scales/layout mismatches.
#[derive(Clone, Copy, Debug)]
pub struct W8A8WeightView<'a> {
    pub values_i8: CudaBuffer,
    pub scales_f32: &'a Tensor,
    pub input_dim: usize,
    pub output_dim: usize,
    pub scale_mode: W8A8ScaleMode,
    pub layout: W8A8Layout,
}

/// The identity of a W8A8 product on a device.
pub open spec fn w8a8_key(ctx: CudaContext, m: usize, n: usize, k: usize) -> GemmTuningKey {
    GemmTuningKey {
        op: GemmOp::W8A8,
        device: DeviceFingerprint {
            sm: ctx.caps.sm,
            multiprocessor_count: ctx.caps.multiprocessor_count,
        },
        m,
        n,
        k,
        activation_dtype: TuningDType::I8,
        weight_dtype: TuningDType::I8,
        output_dtype: TuningDType::Bf16,
        layout: GemmLayout::WeightOutputMajor,
        scale_mode: ScaleMode::DynamicRowPerOutputChannel,
        epilogue: Epilogue::Plain,
        workspace_limit: usize::MAX,
    }
}

pub fn tuning_key(ctx: &CudaContext, m: usize, n: usize, k: usize) -> (key: GemmTuningKey)
    ensures
        key == w8a8_key(*ctx, m, n, k),
{
    GemmTuningKey {
        op: GemmOp::W8A8,
        device: DeviceFingerprint {
            sm: ctx.caps.sm,
            multiprocessor_count: ctx.caps.multiprocessor_count,
        },
        m,
        n,
        k,
        activation_dtype: TuningDType::I8,
        weight_dtype: TuningDType::I8,
        output_dtype: TuningDType::Bf16,
        layout: GemmLayout::WeightOutputMajor,
        scale_mode: ScaleMode::DynamicRowPerOutputChannel,
        epilogue: Epilogue::Plain,
        workspace_limit: usize::MAX,
    }
}

/// The buffers of a product: quantized rows, their scales, the weight's scales,
/// accumulators and the result.
#[derive(Clone, Copy, Debug, PartialEq, Eq, Structural)]
pub struct W8A8Buffers {
    pub quantized: CudaBuffer,
    pub weights: CudaBuffer,
    pub row_scales: CudaBuffer,
    pub weight_scales: CudaBuffer,
    pub accumulators: CudaBuffer,
    pub output: CudaBuffer,
}

/// The native calls of one product, in order.
#[derive(Clone, Copy, Debug, PartialEq, Eq, Structural)]
pub enum W8A8Launch {
    /// The integer product, then `apxinf_static_dequantize_int32_bf16`.
    Vendor {
        gemm: CublasCall,
        accumulators: usize,
        row_scales: usize,
        weight_scales: usize,
        output: usize,
        m: i32,
        n: i32,
    },
    /// `apxinf_static_cutlass_int8_gemm_bf16`.
    Cutlass {
        quantized: usize,
        weights: usize,
        row_scales: usize,
        weight_scales: usize,
        output: usize,
        dims: Dims,
    },
}

pub const NO_CUTLASS: &'static str = "CUTLASS W8A8 autotune requires an SM80-family build";

pub const CANNOT_EXECUTE: &'static str = "W8A8 online autotune cannot execute this tactic";

pub open spec fn vendor_launch(
    m: usize,
    n: usize,
    k: usize,
    buffers: W8A8Buffers,
) -> Result<W8A8Launch, Error> {
    if buffers.quantized.len < m * k || buffers.weights.len < n * k || buffers.accumulators.len < m
        * n * 4 {
        Err(Error::Other(INT8_TEXT))
    } else {
        Ok(
            W8A8Launch::Vendor {
                gemm: int8_call(
                    m,
                    n,
                    k,
                    buffers.quantized,
                    buffers.weights,
                    buffers.accumulators,
                ),
                accumulators: buffers.accumulators.address,
                row_scales: buffers.row_scales.address,
                weight_scales: buffers.weight_scales.address,
                output: buffers.output.address,
                m: m as i32,
                n: n as i32,
            },
        )
    }
}

pub open spec fn cutlass_launch(m: usize, n: usize, k: usize, buffers: W8A8Buffers) -> W8A8Launch {
    W8A8Launch::Cutlass {
        quantized: buffers.quantized.address,
        weights: buffers.weights.address,
        row_scales: buffers.row_scales.address,
        weight_scales: buffers.weight_scales.address,
        output: buffers.output.address,
        dims: native_dims(m, n, k),
    }
}

/// Whether the sizes of a product are machine words.
pub open spec fn fits(m: usize, n: usize, k: usize) -> bool {
    m * k <= usize::MAX && n * k <= usize::MAX && m * n * 4 <= usize::MAX
}

fn vendor_calls(
    cublas: &CublasHandle,
    m: usize,
    n: usize,
    k: usize,
    buffers: &W8A8Buffers,
) -> (result: Result<W8A8Launch, Error>)
    requires
        fits(m, n, k),
    ensures
        result == vendor_launch(m, n, k, *buffers),
{
    let gemm = cublas.gemm_int8_i32(
        m,
        n,
        k,
        &buffers.quantized,
        &buffers.weights,
        &buffers.accumulators,
    )?;
    Ok(
        W8A8Launch::Vendor {
            gemm,
            accumulators: buffers.accumulators.address,
            row_scales: buffers.row_scales.address,
            weight_scales: buffers.weight_scales.address,
            output: buffers.output.address,
            m: m as i32,
            n: n as i32,
        },
    )
}

fn cutlass_call(m: usize, n: usize, k: usize, buffers: &W8A8Buffers) -> (launch: W8A8Launch)
    ensures
        launch == cutlass_launch(m, n, k, *buffers),
{
    W8A8Launch::Cutlass {
        quantized: buffers.quantized.address,
        weights: buffers.weights.address,
        row_scales: buffers.row_scales.address,
        weight_scales: buffers.weight_scales.address,
        output: buffers.output.address,
        dims: Dims::new(m, n, k),
    }
}

/// The calls that a tactic makes, once its provider accepts it.
pub open spec fn tactic_launch(
    build: BuildFeatures,
    key: GemmTuningKey,
    buffers: W8A8Buffers,
    tactic: TacticId,
) -> Result<W8A8Launch, Error> {
    match providers::preparation(build, key, tactic, None) {
        Err(error) => Err(error),
        Ok(_) => match tactic.backend {
            TacticBackend::Vendor => vendor_launch(key.m, key.n, key.k, buffers),
            TacticBackend::Cutlass => if build.cutlass_int8_sm80 {
                Ok(cutlass_launch(key.m, key.n, key.k, buffers))
            } else {
                Err(Error::Other(NO_CUTLASS))
            },
            _ => Err(Error::Other(CANNOT_EXECUTE)),
        },
    }
}

/// The calls that run `tactic`.
pub fn launch_w8a8_tactic(
    build: &BuildFeatures,
    cublas: &CublasHandle,
    key: &GemmTuningKey,
    buffers: &W8A8Buffers,
    tactic: TacticId,
) -> (result: Result<W8A8Launch, Error>)
    requires
        fits(key.m, key.n, key.k),
    ensures
        result == tactic_launch(*build, *key, *buffers, tactic),
        result matches Ok(W8A8Launch::Vendor { row_scales, weight_scales, output, .. }) ==> row_scales
            == buffers.row_scales.address && weight_scales == buffers.weight_scales.address
            && output == buffers.output.address,
        result matches Ok(W8A8Launch::Cutlass { row_scales, weight_scales, output, .. }) ==> row_scales
            == buffers.row_scales.address && weight_scales == buffers.weight_scales.address
            && output == buffers.output.address,
{
    providers::prepare(build, key, tactic, None)?;
    match tactic.backend {
        TacticBackend::Vendor => vendor_calls(cublas, key.m, key.n, key.k, buffers),
        TacticBackend::Cutlass => {
            if !build.cutlass_int8_sm80 {
                return Err(Error::Other(NO_CUTLASS));
            }
            Ok(cutlass_call(key.m, key.n, key.k, buffers))
        },
        _ => Err(Error::Other(CANNOT_EXECUTE)),
    }
}

/// What a tuning run measures. Its reference is the vendor route.
#[derive(Debug)]
pub struct W8A8Autotune {
    pub elements: usize,
    pub output_bytes: usize,
    pub accumulator_bytes: usize,
    pub candidates: Vec<TacticCandidate>,
}

pub const TUNE_OUTPUT_OVERFLOW: &'static str = "W8A8 autotune output size overflow";

pub const TUNE_ACCUMULATOR_OVERFLOW: &'static str = "W8A8 autotune accumulator size overflow";

/// Plan a tuning run of `key`.
pub fn autotune_request_w8a8(build: &BuildFeatures, key: &GemmTuningKey) -> (result: Result<
    W8A8Autotune,
    Error,
>)
    ensures
        if key.m * key.n * 2 > usize::MAX {
            result == Err::<W8A8Autotune, Error>(Error::Other(TUNE_OUTPUT_OVERFLOW))
        } else if key.m * key.n * 4 > usize::MAX {
            result == Err::<W8A8Autotune, Error>(Error::Other(TUNE_ACCUMULATOR_OVERFLOW))
        } else {
            result matches Ok(request) && {
                &&& request.elements == key.m * key.n
                &&& request.output_bytes == key.m * key.n * 2
                &&& request.accumulator_bytes == key.m * key.n * 4
                &&& request.candidates@ == providers::offered(*build, *key, 0).map_values(
                    |tactic: TacticId| TacticCandidate { tactic },
                )
            }
        },
{
    let output_bytes: usize = checked_matrix_bytes(key.m, key.n, 2, TUNE_OUTPUT_OVERFLOW)?;
    let accumulator_bytes: usize = checked_matrix_bytes(
        key.m,
        key.n,
        4,
        TUNE_ACCUMULATOR_OVERFLOW,
    )?;
    proof {
        assert(key.m * key.n <= key.m * key.n * 2) by (nonlinear_arith);
    }
    let elements: usize = key.m * key.n;
    Ok(
        W8A8Autotune {
            elements,
            output_bytes,
            accumulator_bytes,
            candidates: providers::candidates(build, key, 0),
        },
    )
}

/// `apxinf_static_quantize_rows_bf16_int8`, into the quantized rows and their
/// scales.
#[derive(Clone, Copy, Debug, PartialEq, Eq, Structural)]
pub struct QuantizeRows {
    pub activation: usize,
    pub rows: i32,
    pub cols: i32,
}

/// A product whose operands were accepted.
#[derive(Clone, Copy, Debug, PartialEq, Eq, Structural)]
pub struct W8A8Request {
    pub key: GemmTuningKey,
    pub quantize: QuantizeRows,
    pub weights: CudaBuffer,
    pub weight_scales: CudaBuffer,
    pub quantized_bytes: usize,
    pub row_scale_bytes: usize,
    pub accumulator_bytes: usize,
    pub output_bytes: usize,
    /// The tactic of a shape that was never tuned.
    pub default: TacticId,
}

pub const ACTIVATION: &'static str = "gemm_w8a8 expects a BF16 activation on the context's device";

pub const SHAPE: &'static str = "gemm_w8a8 activation shape mismatch";

pub const WEIGHT: &'static str = "gemm_w8a8 weight contract mismatch";

/// A weight contract holds: the values, their scales and the extents agree.
pub open spec fn weight_holds(ctx: CudaContext, weight: W8A8WeightView<'_>) -> bool {
    &&& weight.values_i8.device == ctx.device_id
    &&& weight.values_i8.len == weight.input_dim * weight.output_dim
    &&& weight.scales_f32.dtype == DType::F32
    &&& weight.scales_f32.device == Device::Cuda(ctx.device_id)
    &&& weight.scales_f32.dims@.len() == 1
    &&& weight.scales_f32.dims@[0] == weight.output_dim
}

/// Whether the size of the weight is asked for: the activation is accepted, and
/// the weight lies on the context's device.
pub open spec fn sizes_weight(ctx: CudaContext, activation: Tensor, weight: W8A8WeightView<'_>) -> bool {
    &&& activation.dtype == DType::BF16
    &&& activation.device == Device::Cuda(ctx.device_id)
    &&& activation.dims@.len() == 2
    &&& activation.dims@[1] == weight.input_dim
    &&& weight.values_i8.device == ctx.device_id
}

pub open spec fn w8a8_problem(
    ctx: CudaContext,
    activation: Tensor,
    weight: W8A8WeightView<'_>,
) -> Option<Error> {
    if activation.dtype != DType::BF16 || activation.device != Device::Cuda(ctx.device_id) {
        Some(Error::Other(ACTIVATION))
    } else if activation.dims@.len() != 2 || activation.dims@[1] != weight.input_dim {
        Some(
            Error::Operand {
                text: SHAPE,
                dtype: activation.dtype,
                shape: shape_of(activation.dims@),
            },
        )
    } else if !weight_holds(ctx, weight) {
        Some(Error::Other(WEIGHT))
    } else {
        None
    }
}

/// Where the build carries the INT8 tile and the device is of its family, the
/// tile is the default.
pub open spec fn prefers_cutlass(build: BuildFeatures, ctx: CudaContext) -> bool {
    build.cutlass_int8_sm80 && ctx.caps.arch_family == CudaArchFamily::Sm80
}

pub open spec fn w8a8_request(
    ctx: CudaContext,
    activation: Tensor,
    weight: W8A8WeightView<'_>,
    cutlass: bool,
) -> W8A8Request {
    let rows = activation.dims@[0];
    W8A8Request {
        key: w8a8_key(ctx, rows, weight.output_dim, weight.input_dim),
        quantize: QuantizeRows {
            activation: activation.buffer.address,
            rows: rows as i32,
            cols: weight.input_dim as i32,
        },
        weights: weight.values_i8,
        weight_scales: weight.scales_f32.buffer,
        quantized_bytes: (rows * weight.input_dim) as usize,
        row_scale_bytes: (rows * 4) as usize,
        accumulator_bytes: (rows * weight.output_dim * 4) as usize,
        output_bytes: (rows * weight.output_dim * 2) as usize,
        default: TacticId {
            backend: if cutlass {
                TacticBackend::Cutlass
            } else {
                TacticBackend::Vendor
            },
            value: 0,
        },
    }
}

/// Dynamic-row-quantized W8A8 GEMM with BF16 output.
pub fn gemm_w8a8(
    build: &BuildFeatures,
    ctx: &CudaContext,
    activation: &Tensor,
    weight: W8A8WeightView<'_>,
) -> (result: Result<W8A8Request, Error>)
    requires
        sizes_weight(*ctx, *activation, weight) ==> weight.input_dim * weight.output_dim
            <= usize::MAX,
        w8a8_problem(*ctx, *activation, weight) is None ==> activation.dims@[0] * 4 <= usize::MAX
            && fits(activation.dims@[0], weight.output_dim, weight.input_dim),
    ensures
        result == unless(
            w8a8_problem(*ctx, *activation, weight),
            w8a8_request(*ctx, *activation, weight, prefers_cutlass(*build, *ctx)),
        ),
{
    let prefer_cutlass = build.cutlass_int8_sm80 && ctx.caps.arch_family == CudaArchFamily::Sm80;
    gemm_w8a8_impl(ctx, activation, weight, prefer_cutlass)
}

/// As `gemm_w8a8`, with the default tactic chosen by the caller.
pub fn gemm_w8a8_impl(
    ctx: &CudaContext,
    activation: &Tensor,
    weight: W8A8WeightView<'_>,
    default_cutlass: bool,
) -> (result: Result<W8A8Request, Error>)
    requires
        sizes_weight(*ctx, *activation, weight) ==> weight.input_dim * weight.output_dim
            <= usize::MAX,
        w8a8_problem(*ctx, *activation, weight) is None ==> activation.dims@[0] * 4 <= usize::MAX
            && fits(activation.dims@[0], weight.output_dim, weight.input_dim),
    ensures
        result == unless(
            w8a8_problem(*ctx, *activation, weight),
            w8a8_request(*ctx, *activation, weight, default_cutlass),
        ),
{
    if activation.dtype != DType::BF16 || activation.device != Device::Cuda(ctx.device_id) {
        return Err(Error::Other(ACTIVATION));
    }
    if activation.dims.len() != 2 || activation.dims[1] != weight.input_dim {
        return Err(
            Error::Operand {
                text: SHAPE,
                dtype: activation.dtype,
                shape: Shape::of(activation.dims.as_slice()),
            },
        );
    }
    let scales = weight.scales_f32;
    if weight.values_i8.device != ctx.device_id || weight.values_i8.len != weight.input_dim
        * weight.output_dim || scales.dtype != DType::F32 || scales.device != Device::Cuda(
        ctx.device_id,
    ) || scales.dims.len() != 1 || scales.dims[0] != weight.output_dim {
        return Err(Error::Other(WEIGHT));
    }
    let rows: usize = activation.dims[0];
    proof {
        let p = rows * weight.output_dim;
        assert(p * 2 <= p * 4 && p <= p * 4) by (nonlinear_arith)
            requires
                p >= 0,
        ;
    }
    Ok(
        W8A8Request {
            key: tuning_key(ctx, rows, weight.output_dim, weight.input_dim),
            quantize: QuantizeRows {
                activation: activation.buffer.address,
                rows: rows as i32,
                cols: weight.input_dim as i32,
            },
            weights: weight.values_i8,
            weight_scales: scales.buffer,
            quantized_bytes: rows * weight.input_dim,
            row_scale_bytes: rows * 4,
            accumulator_bytes: rows * weight.output_dim * 4,
            output_bytes: rows * weight.output_dim * 2,
            default: TacticId {
                backend: if default_cutlass {
                    TacticBackend::Cutlass
                } else {
                    TacticBackend::Vendor
                },
                value: 0,
            },
        },
    )
}

/// How far a product has come after its tactic was resolved.
#[derive(Clone, Copy, Debug, PartialEq, Eq, Structural)]
pub enum W8A8Stage {
    /// Launch the CUTLASS tile.
    Cutlass,
    /// Install the vendor plan in place of the tile that failed.
    Fallback,
    /// Launch the vendor route.
    Vendor,
    Done,
    /// The last call's error is the result.
    Failed,
}

/// The tile is used where the build carries it, the tactic asks for it and the
/// extents are aligned.
pub open spec fn w8a8_first(build: BuildFeatures, key: GemmTuningKey, tactic: TacticId) -> W8A8Stage {
    if build.cutlass_int8_sm80 && tactic.backend == TacticBackend::Cutlass && key.k % 16 == 0
        && key.n % 8 == 0 {
        W8A8Stage::Cutlass
    } else {
        W8A8Stage::Vendor
    }
}

pub fn gemm_w8a8_start(build: &BuildFeatures, key: &GemmTuningKey, tactic: TacticId) -> (stage:
    W8A8Stage)
    ensures
        stage == w8a8_first(*build, *key, tactic),
{
    if build.cutlass_int8_sm80 && tactic.backend == TacticBackend::Cutlass && key.k % 16 == 0
        && key.n % 8 == 0 {
        W8A8Stage::Cutlass
    } else {
        W8A8Stage::Vendor
    }
}

/// The launch of a stage that has one.
pub fn gemm_w8a8_launch(
    cublas: &CublasHandle,
    key: &GemmTuningKey,
    buffers: &W8A8Buffers,
    stage: W8A8Stage,
) -> (result: Result<Option<W8A8Launch>, Error>)
    requires
        fits(key.m, key.n, key.k),
    ensures
        result == (match stage {
            W8A8Stage::Cutlass => Ok::<Option<W8A8Launch>, Error>(
                Some(cutlass_launch(key.m, key.n, key.k, *buffers)),
            ),
            W8A8Stage::Vendor => match vendor_launch(key.m, key.n, key.k, *buffers) {
                Ok(launch) => Ok(Some(launch)),
                Err(error) => Err(error),
            },
            _ => Ok(None),
        }),
        result matches Ok(Some(W8A8Launch::Vendor { row_scales, weight_scales, output, .. })) ==> row_scales
            == buffers.row_scales.address && weight_scales == buffers.weight_scales.address
            && output == buffers.output.address,
        result matches Ok(Some(W8A8Launch::Cutlass { row_scales, weight_scales, output, .. })) ==> row_scales
            == buffers.row_scales.address && weight_scales == buffers.weight_scales.address
            && output == buffers.output.address,
{
    match stage {
        W8A8Stage::Cutlass => Ok(Some(cutlass_call(key.m, key.n, key.k, buffers))),
        W8A8Stage::Vendor => {
            let launch = vendor_calls(cublas, key.m, key.n, key.k, buffers)?;
            Ok(Some(launch))
        },
        _ => Ok(None),
    }
}

pub open spec fn w8a8_next(stage: W8A8Stage, succeeded: bool) -> W8A8Stage {
    match stage {
        W8A8Stage::Cutlass => if succeeded {
            W8A8Stage::Done
        } else {
            W8A8Stage::Fallback
        },
        W8A8Stage::Fallback => if succeeded {
            W8A8Stage::Vendor
        } else {
            W8A8Stage::Failed
        },
        W8A8Stage::Vendor => if succeeded {
            W8A8Stage::Done
        } else {
            W8A8Stage::Failed
        },
        W8A8Stage::Done | W8A8Stage::Failed => stage,
    }
}

/// The stage after a call succeeded or failed.
pub fn gemm_w8a8_advance(stage: W8A8Stage, succeeded: bool) -> (next: W8A8Stage)
    ensures
        next == w8a8_next(stage, succeeded),
{
    match stage {
        W8A8Stage::Cutlass => if succeeded {
            W8A8Stage::Done
        } else {
            W8A8Stage::Fallback
        },
        W8A8Stage::Fallback => if succeeded {
            W8A8Stage::Vendor
        } else {
            W8A8Stage::Failed
        },
        W8A8Stage::Vendor => if succeeded {
            W8A8Stage::Done
        } else {
            W8A8Stage::Failed
        },
        W8A8Stage::Done | W8A8Stage::Failed => stage,
    }
}

/// The buffers sized by an accepted product are large enough for the vendor
/// route.
pub proof fn lemma_accepted_product_can_run(
    ctx: CudaContext,
    activation: Tensor,
    weight: W8A8WeightView<'_>,
    cutlass: bool,
    buffers: W8A8Buffers,
)
    requires
        w8a8_problem(ctx, activation, weight) is None,
        fits(activation.dims@[0], weight.output_dim, weight.input_dim),
        ({
            let request = w8a8_request(ctx, activation, weight, cutlass);
            &&& buffers.quantized.len == request.quantized_bytes
            &&& buffers.weights == request.weights
            &&& buffers.accumulators.len == request.accumulator_bytes
        }),
    ensures
        vendor_launch(
            activation.dims@[0],
            weight.output_dim,
            weight.input_dim,
            buffers,
        ) is Ok,
{
    let (n, k) = (weight.output_dim, weight.input_dim);
    assert(n * k == k * n) by (nonlinear_arith);
}

} // verus!
