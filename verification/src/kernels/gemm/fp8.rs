//! E4M3 matrix products.

use super::super::contracts::{
    checked_matrix_bytes, device_problem, first_of, is_positive, matrix_bytes, positive_bits,
    require_device, unless,
};
use super::bf16::{
    conformable, geglu_preparation, storage, storage_of, validate_geglu_weight,
    weight_copy_problem, ONE, ZERO,
};
use super::geglu::{decomposed, decomposed_geglu_tactic};
use super::plan::PreparedGemmPlan;
use super::providers;
use super::providers::{native_dims, Dims, Preparation, ProviderCall};
use crate::context::CudaContext;
use crate::cublas::{row_major, stored, CublasCall, CublasHandle, Scalar, FIXED_ALGO};
use crate::error::{shape_of, Error, Shape};
use crate::ffi::cublas::{cublasComputeType_t, cublasOperation_t, cudaDataType_t};
use crate::text::{
    chars_of, find, first_index, parse_i32, parse_usize, parsed_i32, parsed_unsigned, pieces, slice,
    split, texts, EnvironmentValue,
};
use crate::tuning::{
    exact_tactic, lookup_record, BuildFeatures, CublasLtCustomConfig, DeviceFingerprint, Epilogue,
    GemmLayout, GemmOp, GemmTuningKey, ScaleMode, TacticBackend, TacticCandidate, TacticId,
    TuningDType,
};
use crate::types::{CudaBuffer, DType, Device, Tensor};
use vstd::prelude::*;

verus! {

/// A factor that is the product of two 32-bit floats, each by its bits.
#[derive(Clone, Copy, Debug, PartialEq, Eq, Structural)]
pub struct Factor {
    pub left: u32,
    pub right: u32,
}

/// The tile of a row-scaled product: measured shapes first, then by the number
/// of rows and the longer side.
pub open spec fn dynamic_tile(m: usize, n: usize, k: usize) -> i32 {
    if m == 10 && n == 1024 && k == 2048 {
        1
    } else if m == 10 && n == 2560 && k == 1024 {
        11
    } else if m == 10 && n == 4096 && k == 1024 {
        13
    } else if m == 217 && n == 22016 && k == 2048 {
        12
    } else if m == 217 && n == 2048 && k == 11008 {
        6
    } else if m == 217 && n == 2560 && k == 2048 {
        8
    } else if m == 217 && n == 2048 && k == 2048 {
        10
    } else if m == 648 && n == 1280 && k == 1280 {
        8
    } else if m == 648 && n == 1280 && k == 3424 {
        9
    } else if m == 648 && n == 3840 && k == 1280 {
        9
    } else if m == 648 && n == 6848 && k == 1280 {
        6
    } else if m <= 64 {
        1
    } else if m <= 256 {
        if n >= 10_000 {
            0
        } else if k >= 10_000 {
            6
        } else if n >= 2_500 {
            8
        } else {
            3
        }
    } else if n >= 5_000 {
        6
    } else if k >= 3_000 {
        8
    } else if n >= 2_500 {
        6
    } else {
        8
    }
}

pub fn dynamic_fp8_tactic(m: usize, n: usize, k: usize) -> (tactic: i32)
    ensures
        tactic == dynamic_tile(m, n, k),
{
    match (m, n, k) {
        (10, 1024, 2048) => 1,
        (10, 2560, 1024) => 11,
        (10, 4096, 1024) => 13,
        (217, 22016, 2048) => 12,
        (217, 2048, 11008) => 6,
        (217, 2560, 2048) => 8,
        (217, 2048, 2048) => 10,
        (648, 1280, 1280) => 8,
        (648, 1280, 3424) => 9,
        (648, 3840, 1280) => 9,
        (648, 6848, 1280) => 6,
        _ => if m <= 64 {
            1
        } else if m <= 256 && n >= 10_000 {
            0
        } else if m <= 256 && k >= 10_000 {
            6
        } else if m <= 256 && n >= 2_500 {
            8
        } else if m <= 256 {
            3
        } else if n >= 5_000 {
            6
        } else if k >= 3_000 {
            8
        } else if n >= 2_500 {
            6
        } else {
            8
        },
    }
}

pub const DUAL_RECORD: &'static str =
    "FP8 dual GeGLU backend requires M522 or M533, N32768/K2048, tactic 0";

/// Whether the dual-GEMM kernel was validated for a record.
pub open spec fn dual_record(op: GemmOp, m: usize, n: usize, k: usize, tactic: i32) -> bool {
    op == GemmOp::Fp8F16 && (m == 522 || m == 533) && n == 32768 && k == 2048 && tactic == 0
}

pub fn validate_fp8_dual_geglu_record(op: GemmOp, m: usize, n: usize, k: usize, tactic: i32) -> (
    result: Result<(), Error>)
    ensures
        result == (if dual_record(op, m, n, k, tactic) {
            Ok::<(), Error>(())
        } else {
            Err(Error::Other(DUAL_RECORD))
        }),
{
    if op != GemmOp::Fp8F16 || !(m == 522 || m == 533) || n != 32768 || k != 2048 || tactic != 0 {
        return Err(Error::Other(DUAL_RECORD));
    }
    Ok(())
}

/// The BF16 dual-GEMM kernels were validated for one exact record each.
pub fn validate_bf16_dual_geglu_record(
    op: GemmOp,
    m: usize,
    n: usize,
    k: usize,
    tactic: i32,
    expected_m: usize,
    experiment: &'static str,
) -> (result: Result<(), Error>)
    ensures
        result == (if op == GemmOp::Bf16 && m == expected_m && n == 32768 && k == 2048 && tactic
            == 0 {
            Ok::<(), Error>(())
        } else {
            Err(
                Error::Operation {
                    operation: experiment,
                    problem: "backend requires its exact BF16 record",
                },
            )
        }),
{
    if op != GemmOp::Bf16 || m != expected_m || n != 32768 || k != 2048 || tactic != 0 {
        return Err(
            Error::Operation {
                operation: experiment,
                problem: "backend requires its exact BF16 record",
            },
        );
    }
    Ok(())
}

/// Borrowed static-per-tensor FP8 weight contract.
#[derive(Clone, Copy, Debug)]
pub struct Fp8WeightView<'a> {
    pub values_e4m3: &'a Tensor,
    /// The bits of the scale.
    pub scale: u32,
    /// Exact dual-GeGLU [gate256,up256] physical layout. Plain GEMM must
    /// reject this layout; only the exact dual-GeGLU backend may consume it.
    pub dual_geglu_interleaved: bool,
    /// Optional auto-mode physical [gate256,up256] matrix. The primary tensor
    /// remains plain and is used by every non-dual route.
    pub dual_geglu_auto_interleaved: Option<&'a Tensor>,
}

#[derive(Clone, Copy, Debug)]
pub struct DynamicFp8WeightView<'a> {
    /// Contiguous output-major physical `[N, K]` E4M3 matrix.
    pub values_e4m3: &'a Tensor,
    /// FP32 scale for each output channel, shape `[N]`.
    pub channel_scales: &'a Tensor,
}

/// The identity of an FP8 product with FP16 output.
pub open spec fn fp8_key(ctx: CudaContext, m: usize, n: usize, k: usize) -> GemmTuningKey {
    GemmTuningKey {
        op: GemmOp::Fp8F16,
        device: DeviceFingerprint {
            sm: ctx.caps.sm,
            multiprocessor_count: ctx.caps.multiprocessor_count,
        },
        m,
        n,
        k,
        activation_dtype: TuningDType::F8E4M3,
        weight_dtype: TuningDType::F8E4M3,
        output_dtype: TuningDType::F16,
        layout: GemmLayout::RowMajor,
        scale_mode: ScaleMode::PerTensor,
        epilogue: Epilogue::Plain,
        workspace_limit: usize::MAX,
    }
}

pub fn tuning_key(ctx: &CudaContext, m: usize, n: usize, k: usize) -> (key: GemmTuningKey)
    ensures
        key == fp8_key(*ctx, m, n, k),
{
    GemmTuningKey {
        op: GemmOp::Fp8F16,
        device: DeviceFingerprint {
            sm: ctx.caps.sm,
            multiprocessor_count: ctx.caps.multiprocessor_count,
        },
        m,
        n,
        k,
        activation_dtype: TuningDType::F8E4M3,
        weight_dtype: TuningDType::F8E4M3,
        output_dtype: TuningDType::F16,
        layout: GemmLayout::RowMajor,
        scale_mode: ScaleMode::PerTensor,
        epilogue: Epilogue::Plain,
        workspace_limit: usize::MAX,
    }
}

/// The identity of an FP8 product with BF16 output.
pub open spec fn fp8_bf16_key(ctx: CudaContext, m: usize, n: usize, k: usize) -> GemmTuningKey {
    GemmTuningKey {
        op: GemmOp::Fp8Bf16,
        output_dtype: TuningDType::Bf16,
        ..fp8_key(ctx, m, n, k)
    }
}

pub fn bf16_output_tuning_key(ctx: &CudaContext, m: usize, n: usize, k: usize) -> (key:
    GemmTuningKey)
    ensures
        key == fp8_bf16_key(*ctx, m, n, k),
{
    let mut key = tuning_key(ctx, m, n, k);
    key.op = GemmOp::Fp8Bf16;
    key.output_dtype = TuningDType::Bf16;
    key
}

/// The identity of an FP8 gate/up projection with GeGLU.
pub open spec fn fp8_geglu_key(ctx: CudaContext, m: usize, full_n: usize, k: usize) -> GemmTuningKey {
    GemmTuningKey {
        output_dtype: TuningDType::F8E4M3,
        epilogue: Epilogue::GeGlu,
        ..fp8_key(ctx, m, full_n, k)
    }
}

pub fn geglu_tuning_key(ctx: &CudaContext, m: usize, full_n: usize, k: usize) -> (key: GemmTuningKey)
    ensures
        key == fp8_geglu_key(*ctx, m, full_n, k),
{
    let mut key = tuning_key(ctx, m, full_n, k);
    key.output_dtype = TuningDType::F8E4M3;
    key.epilogue = Epilogue::GeGlu;
    key
}

/// The tactic that was tuned for exactly this shape.
pub fn exact_fp8_tactic(ctx: &CudaContext, m: usize, n: usize, k: usize) -> (tactic: Option<
    TacticId,
>)
    ensures
        tactic == exact_tactic(lookup_record(ctx.tuning.records@, fp8_key(*ctx, m, n, k))),
{
    ctx.tuning.lookup_gemm_exact(&tuning_key(ctx, m, n, k))
}

/// Which native cuBLASLt product is called.
#[derive(Clone, Copy, Debug, PartialEq, Eq, Structural)]
pub enum Fp8Form {
    /// `apxinf_static_fp8_gemm_f16`.
    Whole,
    /// `apxinf_static_fp8_gemm_split_f16`.
    Split,
    /// `apxinf_static_fp8_gemm_split_first_f16`.
    SplitFirst,
}

/// The native call of one FP8 product with FP16 output.
#[derive(Clone, Copy, Debug, PartialEq, Eq, Structural)]
pub enum Fp8Launch {
    CublasLt {
        form: Fp8Form,
        activation: usize,
        weight: usize,
        output: usize,
        dims: Dims,
        alpha: Factor,
    },
    /// `apxinf_static_cutlass_fp8_gemm_f16`; a status other than zero means
    /// that the tile does not fit the shape.
    Cutlass {
        activation: usize,
        weight: usize,
        output: usize,
        dims: Dims,
        alpha: Factor,
        tactic: i32,
    },
}

/// `apxinf_static_dequantize_e4m3_f16`.
#[derive(Clone, Copy, Debug, PartialEq, Eq, Structural)]
pub struct Dequantize {
    pub input: usize,
    pub output: usize,
    pub elements: i64,
    pub scale: Factor,
}

pub open spec fn lt_launch(
    form: Fp8Form,
    activation: CudaBuffer,
    weight: CudaBuffer,
    output: CudaBuffer,
    m: usize,
    n: usize,
    k: usize,
    alpha: Factor,
) -> Fp8Launch {
    Fp8Launch::CublasLt {
        form,
        activation: activation.address,
        weight: weight.address,
        output: output.address,
        dims: native_dims(m, n, k),
        alpha,
    }
}

pub fn cublaslt_fp8_gemm_f16(
    activation: &CudaBuffer,
    weight: &CudaBuffer,
    output: &CudaBuffer,
    m: usize,
    n: usize,
    k: usize,
    alpha: Factor,
) -> (launch: Fp8Launch)
    ensures
        launch == lt_launch(Fp8Form::Whole, *activation, *weight, *output, m, n, k, alpha),
{
    Fp8Launch::CublasLt {
        form: Fp8Form::Whole,
        activation: activation.address,
        weight: weight.address,
        output: output.address,
        dims: Dims::new(m, n, k),
        alpha,
    }
}

pub fn cublaslt_fp8_gemm_split_f16(
    activation: &CudaBuffer,
    weight: &CudaBuffer,
    output: &CudaBuffer,
    m: usize,
    n: usize,
    k: usize,
    alpha: Factor,
) -> (launch: Fp8Launch)
    ensures
        launch == lt_launch(Fp8Form::Split, *activation, *weight, *output, m, n, k, alpha),
{
    Fp8Launch::CublasLt {
        form: Fp8Form::Split,
        activation: activation.address,
        weight: weight.address,
        output: output.address,
        dims: Dims::new(m, n, k),
        alpha,
    }
}

pub fn cublaslt_fp8_gemm_split_first_f16(
    activation: &CudaBuffer,
    weight: &CudaBuffer,
    output: &CudaBuffer,
    m: usize,
    n: usize,
    k: usize,
    alpha: Factor,
) -> (launch: Fp8Launch)
    ensures
        launch == lt_launch(Fp8Form::SplitFirst, *activation, *weight, *output, m, n, k, alpha),
{
    Fp8Launch::CublasLt {
        form: Fp8Form::SplitFirst,
        activation: activation.address,
        weight: weight.address,
        output: output.address,
        dims: Dims::new(m, n, k),
        alpha,
    }
}

pub open spec fn cutlass_launch(
    activation: CudaBuffer,
    weight: CudaBuffer,
    output: CudaBuffer,
    m: usize,
    n: usize,
    k: usize,
    alpha: Factor,
    tactic: i32,
) -> Fp8Launch {
    Fp8Launch::Cutlass {
        activation: activation.address,
        weight: weight.address,
        output: output.address,
        dims: native_dims(m, n, k),
        alpha,
        tactic,
    }
}

pub fn cutlass_fp8_gemm_f16(
    activation: &CudaBuffer,
    weight: &CudaBuffer,
    output: &CudaBuffer,
    m: usize,
    n: usize,
    k: usize,
    alpha: Factor,
    tactic: i32,
) -> (launch: Fp8Launch)
    ensures
        launch == cutlass_launch(*activation, *weight, *output, m, n, k, alpha, tactic),
{
    Fp8Launch::Cutlass {
        activation: activation.address,
        weight: weight.address,
        output: output.address,
        dims: Dims::new(m, n, k),
        alpha,
        tactic,
    }
}

pub open spec fn dequantize_call(
    input: CudaBuffer,
    output: CudaBuffer,
    elements: usize,
    scale: Factor,
) -> Dequantize {
    Dequantize {
        input: input.address,
        output: output.address,
        elements: elements as i64,
        scale,
    }
}

pub fn dequantize_e4m3_f16(
    input: &CudaBuffer,
    output: &CudaBuffer,
    elements: usize,
    scale: Factor,
) -> (call: Dequantize)
    ensures
        call == dequantize_call(*input, *output, elements, scale),
{
    Dequantize { input: input.address, output: output.address, elements: elements as i64, scale }
}

pub const INTERLEAVED: &'static str =
    "FP8 dual GeGLU interleaved Gate/Up weight cannot be used by plain FP8 GEMM";

pub const EXPECTS_E4M3: &'static str = "gemm_fp8 expects E4M3 operands";

pub const SCALES: &'static str = "gemm_fp8 scales must be finite and positive";

pub const SHAPE_MISMATCH: &'static str = "gemm_fp8 shape mismatch";

pub const ACTIVATION_OVERFLOW: &'static str = "FP8 activation decode size overflow";

pub const WEIGHT_OVERFLOW: &'static str = "FP8 weight decode size overflow";

pub open spec fn fp8_problem(
    ctx: CudaContext,
    activation: Tensor,
    activation_scale: u32,
    weight: Fp8WeightView<'_>,
) -> Option<Error> {
    let expected = Device::Cuda(ctx.device_id);
    let values = *weight.values_e4m3;
    if weight.dual_geglu_interleaved {
        Some(Error::Other(INTERLEAVED))
    } else if activation.dtype != DType::F8E4M3 || values.dtype != DType::F8E4M3 {
        Some(Error::Operands(EXPECTS_E4M3, activation.dtype, values.dtype))
    } else if !positive_bits(activation_scale) || !positive_bits(weight.scale) {
        Some(Error::Other(SCALES))
    } else if !conformable(activation.dims@, values.dims@) {
        Some(
            Error::Shapes { text: SHAPE_MISMATCH, left: shape_of(activation.dims@), right: shape_of(values.dims@) },
        )
    } else {
        first_of(
            device_problem(expected, activation.device),
            device_problem(expected, values.device),
        )
    }
}

/// The sizes of FP16 copies of both operands.
#[derive(Clone, Copy, Debug, PartialEq, Eq, Structural)]
pub struct DecodedBytes {
    pub activation: usize,
    pub weight: usize,
}

/// A product whose operands were accepted.
#[derive(Clone, Copy, Debug, PartialEq, Eq, Structural)]
pub struct Fp8Request {
    pub key: GemmTuningKey,
    pub activation: CudaBuffer,
    pub weight: CudaBuffer,
    pub activation_scale: u32,
    pub weight_scale: u32,
    pub output_bytes: usize,
    /// The sizes of the FP16 copies, where the device has no FP8 cores and the
    /// product is computed from them.
    pub emulation: Option<DecodedBytes>,
}

pub open spec fn fp8_request(
    ctx: CudaContext,
    activation: Tensor,
    activation_scale: u32,
    weight: Fp8WeightView<'_>,
    emulated: bool,
) -> Result<Fp8Request, Error> {
    let values = *weight.values_e4m3;
    let (m, k, n) = (activation.dims@[0], activation.dims@[1], values.dims@[1]);
    if emulated && m * k * 2 > usize::MAX {
        Err(Error::Other(ACTIVATION_OVERFLOW))
    } else if emulated && k * n * 2 > usize::MAX {
        Err(Error::Other(WEIGHT_OVERFLOW))
    } else {
        Ok(
            Fp8Request {
                key: fp8_key(ctx, m, n, k),
                activation: activation.buffer,
                weight: values.buffer,
                activation_scale,
                weight_scale: weight.scale,
                output_bytes: (m * n * 2) as usize,
                emulation: if emulated {
                    Some(
                        DecodedBytes {
                            activation: (m * k * 2) as usize,
                            weight: (k * n * 2) as usize,
                        },
                    )
                } else {
                    None
                },
            },
        )
    }
}

/// Physical static FP8 GEMM with FP16 output. `emulated` says that the device
/// cannot multiply E4M3 operands.
pub fn gemm_fp8(
    ctx: &CudaContext,
    activation: &Tensor,
    activation_scale: u32,
    weight: Fp8WeightView<'_>,
    emulated: bool,
) -> (result: Result<Fp8Request, Error>)
    requires
        fp8_problem(*ctx, *activation, activation_scale, weight) is None ==> activation.dims@[0]
            * weight.values_e4m3.dims@[1] * 2 <= usize::MAX,
    ensures
        result == (match fp8_problem(*ctx, *activation, activation_scale, weight) {
            Some(error) => Err(error),
            None => fp8_request(*ctx, *activation, activation_scale, weight, emulated),
        }),
{
    let values = weight.values_e4m3;
    if weight.dual_geglu_interleaved {
        return Err(Error::Other(INTERLEAVED));
    }
    if activation.dtype != DType::F8E4M3 || values.dtype != DType::F8E4M3 {
        return Err(Error::Operands(EXPECTS_E4M3, activation.dtype, values.dtype));
    }
    if !is_positive(activation_scale) || !is_positive(weight.scale) {
        return Err(Error::Other(SCALES));
    }
    if activation.dims.len() != 2 || values.dims.len() != 2 || activation.dims[1]
        != values.dims[0] {
        return Err(
            Error::Shapes {
                text: SHAPE_MISMATCH,
                left: Shape::of(activation.dims.as_slice()),
                right: Shape::of(values.dims.as_slice()),
            },
        );
    }
    require_device(ctx, activation.device)?;
    require_device(ctx, values.device)?;
    let m: usize = activation.dims[0];
    let k: usize = activation.dims[1];
    let n: usize = values.dims[1];
    proof {
        assert(m * n <= m * n * 2) by (nonlinear_arith);
    }
    let emulation = if emulated {
        let activation_bytes: usize = checked_matrix_bytes(m, k, 2, ACTIVATION_OVERFLOW)?;
        let weight_bytes: usize = checked_matrix_bytes(k, n, 2, WEIGHT_OVERFLOW)?;
        Some(DecodedBytes { activation: activation_bytes, weight: weight_bytes })
    } else {
        None
    };
    Ok(
        Fp8Request {
            key: tuning_key(ctx, m, n, k),
            activation: activation.buffer,
            weight: values.buffer,
            activation_scale,
            weight_scale: weight.scale,
            output_bytes: m * n * 2,
            emulation,
        },
    )
}

/// The calls of a product without FP8 cores: both operands are decoded with
/// their scales, and the copies are multiplied.
#[derive(Clone, Copy, Debug, PartialEq, Eq, Structural)]
pub struct Fp8Emulation {
    pub activation: Dequantize,
    pub weight: Dequantize,
    pub gemm: CublasCall,
}

/// A dense FP16 product on the vendor library.
pub open spec fn f16_gemm(
    m: usize,
    n: usize,
    k: usize,
    a: CudaBuffer,
    b: CudaBuffer,
    c: CudaBuffer,
) -> CublasCall {
    CublasCall::GemmEx(
        row_major(
            cublasOperation_t::CUBLAS_OP_N,
            cublasOperation_t::CUBLAS_OP_N,
            m as i32,
            n as i32,
            k as i32,
            Scalar::Real(ONE),
            stored(a, cudaDataType_t::CUDA_R_16F, k as i32),
            stored(b, cudaDataType_t::CUDA_R_16F, n as i32),
            Scalar::Real(ZERO),
            stored(c, cudaDataType_t::CUDA_R_16F, n as i32),
            cublasComputeType_t::CUBLAS_COMPUTE_32F,
            FIXED_ALGO,
        ),
    )
}

pub fn fp8_emulation_calls(
    cublas: &CublasHandle,
    request: &Fp8Request,
    activation_f16: &CudaBuffer,
    weight_f16: &CudaBuffer,
    output: &CudaBuffer,
) -> (result: Result<Fp8Emulation, Error>)
    requires
        request.key.m * request.key.k <= usize::MAX,
        request.key.k * request.key.n <= usize::MAX,
    ensures
        result == Ok::<Fp8Emulation, Error>(
            Fp8Emulation {
                activation: dequantize_call(
                    request.activation,
                    *activation_f16,
                    (request.key.m * request.key.k) as usize,
                    Factor { left: request.activation_scale, right: ONE },
                ),
                weight: dequantize_call(
                    request.weight,
                    *weight_f16,
                    (request.key.k * request.key.n) as usize,
                    Factor { left: request.weight_scale, right: ONE },
                ),
                gemm: f16_gemm(
                    request.key.m,
                    request.key.n,
                    request.key.k,
                    *activation_f16,
                    *weight_f16,
                    *output,
                ),
            },
        ),
{
    let key = request.key;
    let gemm = cublas.gemm(
        DType::F16,
        key.m,
        key.n,
        key.k,
        ONE,
        activation_f16,
        weight_f16,
        ZERO,
        output,
    )?;
    Ok(
        Fp8Emulation {
            activation: dequantize_e4m3_f16(
                &request.activation,
                activation_f16,
                key.m * key.k,
                Factor { left: request.activation_scale, right: ONE },
            ),
            weight: dequantize_e4m3_f16(
                &request.weight,
                weight_f16,
                key.k * key.n,
                Factor { left: request.weight_scale, right: ONE },
            ),
            gemm,
        },
    )
}

pub const NO_CUTLASS: &'static str = "CUTLASS FP8 tactic requires an SM100-family build";

/// Tactics that split the inner dimension in two.
pub open spec fn is_split(backend: TacticBackend) -> bool {
    backend == TacticBackend::CublasLtCustomSplitSerial || backend
        == TacticBackend::CublasLtCustomSplitGeGluCutlass || backend
        == TacticBackend::CublasLtCustomSplitGeGluCutlass2SmAuto || backend
        == TacticBackend::CublasLtCustomSplitGeGluCutlass2SmStage3 || backend
        == TacticBackend::CublasLtCustomSplitGeGluCutlassM522Explicit2Sm
}

pub open spec fn selected_launch(
    build: BuildFeatures,
    request: Fp8Request,
    tactic: TacticId,
    output: CudaBuffer,
) -> Result<Fp8Launch, Error> {
    let key = request.key;
    let alpha = Factor { left: request.activation_scale, right: request.weight_scale };
    if tactic.backend == TacticBackend::Cutlass {
        if build.cutlass_gemm {
            Ok(
                cutlass_launch(
                    request.activation,
                    request.weight,
                    output,
                    key.m,
                    key.n,
                    key.k,
                    alpha,
                    tactic.value,
                ),
            )
        } else {
            Err(Error::Other(NO_CUTLASS))
        }
    } else {
        Ok(
            lt_launch(
                if is_split(tactic.backend) {
                    Fp8Form::Split
                } else {
                    Fp8Form::Whole
                },
                request.activation,
                request.weight,
                output,
                key.m,
                key.n,
                key.k,
                alpha,
            ),
        )
    }
}

/// The launch of a resolved tactic.
pub fn gemm_fp8_launch(
    build: &BuildFeatures,
    request: &Fp8Request,
    tactic: TacticId,
    output: &CudaBuffer,
) -> (result: Result<Fp8Launch, Error>)
    ensures
        result == selected_launch(*build, *request, tactic, *output),
        result matches Ok(Fp8Launch::CublasLt { activation, weight, output: written, alpha, .. })
            ==> activation == request.activation.address && weight == request.weight.address
            && written == output.address && alpha.left == request.activation_scale && alpha.right
            == request.weight_scale,
        result matches Ok(Fp8Launch::Cutlass { activation, weight, output: written, alpha, .. })
            ==> activation == request.activation.address && weight == request.weight.address
            && written == output.address && alpha.left == request.activation_scale && alpha.right
            == request.weight_scale,
{
    let key = request.key;
    let alpha = Factor { left: request.activation_scale, right: request.weight_scale };
    match tactic.backend {
        TacticBackend::Cutlass => {
            if !build.cutlass_gemm {
                return Err(Error::Other(NO_CUTLASS));
            }
            Ok(
                cutlass_fp8_gemm_f16(
                    &request.activation,
                    &request.weight,
                    output,
                    key.m,
                    key.n,
                    key.k,
                    alpha,
                    tactic.value,
                ),
            )
        },
        TacticBackend::CublasLtCustomSplitSerial
        | TacticBackend::CublasLtCustomSplitGeGluCutlass
        | TacticBackend::CublasLtCustomSplitGeGluCutlass2SmAuto
        | TacticBackend::CublasLtCustomSplitGeGluCutlass2SmStage3
        | TacticBackend::CublasLtCustomSplitGeGluCutlassM522Explicit2Sm => Ok(
            cublaslt_fp8_gemm_split_f16(
                &request.activation,
                &request.weight,
                output,
                key.m,
                key.n,
                key.k,
                alpha,
            ),
        ),
        _ => Ok(
            cublaslt_fp8_gemm_f16(
                &request.activation,
                &request.weight,
                output,
                key.m,
                key.n,
                key.k,
                alpha,
            ),
        ),
    }
}

/// How far a product has come after its tactic was resolved.
#[derive(Clone, Copy, Debug, PartialEq, Eq, Structural)]
pub enum Fp8Stage {
    /// Launch the resolved tactic.
    Selected,
    /// Install the vendor plan in place of the tactic that failed.
    Fallback,
    /// Launch the whole cuBLASLt product.
    Vendor,
    Done,
    /// The last call's error is the result.
    Failed,
}

pub open spec fn fp8_next(stage: Fp8Stage, tactic: TacticId, succeeded: bool) -> Fp8Stage {
    match stage {
        Fp8Stage::Selected => if succeeded {
            Fp8Stage::Done
        } else if tactic.backend == TacticBackend::Vendor {
            Fp8Stage::Failed
        } else {
            Fp8Stage::Fallback
        },
        Fp8Stage::Fallback => if succeeded {
            Fp8Stage::Vendor
        } else {
            Fp8Stage::Failed
        },
        Fp8Stage::Vendor => if succeeded {
            Fp8Stage::Done
        } else {
            Fp8Stage::Failed
        },
        Fp8Stage::Done | Fp8Stage::Failed => stage,
    }
}

/// The stage after a call succeeded or failed. A tactic that fails gives way to
/// the vendor route; a failure there is final.
pub fn gemm_fp8_advance(stage: Fp8Stage, tactic: TacticId, succeeded: bool) -> (next: Fp8Stage)
    ensures
        next == fp8_next(stage, tactic, succeeded),
{
    match stage {
        Fp8Stage::Selected => if succeeded {
            Fp8Stage::Done
        } else if tactic.backend == TacticBackend::Vendor {
            Fp8Stage::Failed
        } else {
            Fp8Stage::Fallback
        },
        Fp8Stage::Fallback => if succeeded {
            Fp8Stage::Vendor
        } else {
            Fp8Stage::Failed
        },
        Fp8Stage::Vendor => if succeeded {
            Fp8Stage::Done
        } else {
            Fp8Stage::Failed
        },
        Fp8Stage::Done | Fp8Stage::Failed => stage,
    }
}

/// Whatever the tactic and whatever fails, a product ends after three calls.
pub proof fn lemma_gemm_fp8_ends(tactic: TacticId, selected: bool, fallback: bool, vendor: bool)
    ensures
        ({
            let first = fp8_next(Fp8Stage::Selected, tactic, selected);
            let last = fp8_next(fp8_next(first, tactic, fallback), tactic, vendor);
            &&& last == Fp8Stage::Done || last == Fp8Stage::Failed
            &&& last == Fp8Stage::Failed ==> !selected
        }),
{
}

/// `apxinf_dynamic_cutlass_fp8_gemm_bf16`.
#[derive(Clone, Copy, Debug, PartialEq, Eq, Structural)]
pub struct DynamicFp8Launch {
    pub activation: usize,
    pub weight: usize,
    pub activation_scales: usize,
    pub weight_scales: usize,
    /// Null where there is no bias.
    pub bias: Option<usize>,
    pub dims: Dims,
    pub tactic: i32,
    pub output_bytes: usize,
    pub rows: usize,
    pub cols: usize,
}

pub const DYNAMIC_OPERANDS: &'static str = "dynamic FP8 GEMM expects E4M3 operands";

pub const DYNAMIC_SCALES: &'static str = "dynamic FP8 GEMM expects FP32 scale vectors";

pub const DYNAMIC_SHAPE: &'static str = "dynamic FP8 GEMM shape mismatch";

pub const DYNAMIC_SCALE_SHAPE: &'static str = "dynamic FP8 GEMM scale mismatch";

pub const DYNAMIC_BIAS: &'static str = "dynamic FP8 GEMM bias must be BF16 [N]";

pub const DYNAMIC_NATIVE: &'static str =
    "dynamic rowwise FP8 GEMM requires native FP8 Tensor Cores";

pub const DYNAMIC_ALIGNMENT: &'static str =
    "dynamic rowwise FP8 GEMM requires N and K divisible by 16";

pub const DYNAMIC_OVERFLOW: &'static str = "dynamic FP8 GEMM output size overflow";

pub const DYNAMIC_BUILD: &'static str =
    "dynamic rowwise FP8 GEMM requires an SM100-family native backend";

pub open spec fn is_vector(dims: Seq<usize>, n: usize) -> bool {
    dims.len() == 1 && dims[0] == n
}

pub open spec fn dynamic_problem(
    build: BuildFeatures,
    ctx: CudaContext,
    activation: Tensor,
    activation_scales: Tensor,
    weight: DynamicFp8WeightView<'_>,
    bias: Option<&Tensor>,
    emulated: bool,
) -> Option<Error> {
    let expected = Device::Cuda(ctx.device_id);
    let values = *weight.values_e4m3;
    let channel_scales = *weight.channel_scales;
    let a = activation.dims@;
    let b = values.dims@;
    if activation.dtype != DType::F8E4M3 || values.dtype != DType::F8E4M3 {
        Some(Error::Operands(DYNAMIC_OPERANDS, activation.dtype, values.dtype))
    } else if activation_scales.dtype != DType::F32 || channel_scales.dtype != DType::F32 {
        Some(Error::Operands(DYNAMIC_SCALES, activation_scales.dtype, channel_scales.dtype))
    } else if a.len() != 2 || b.len() != 2 || a[1] != b[1] {
        Some(
            Error::Shapes { text: DYNAMIC_SHAPE, left: shape_of(a), right: shape_of(b) },
        )
    } else if !is_vector(activation_scales.dims@, a[0]) || !is_vector(channel_scales.dims@, b[0]) {
        Some(
            Error::Shapes { text: DYNAMIC_SCALE_SHAPE, left: shape_of(activation_scales.dims@), right: shape_of(channel_scales.dims@) },
        )
    } else if bias matches Some(bias) && (bias.dtype != DType::BF16 || !is_vector(bias.dims@, b[0])) {
        Some(
            Error::Operand {
                text: DYNAMIC_BIAS,
                dtype: bias.unwrap().dtype,
                shape: shape_of(bias.unwrap().dims@),
            },
        )
    } else {
        first_of(
            device_problem(expected, activation.device),
            first_of(
                device_problem(expected, activation_scales.device),
                first_of(
                    device_problem(expected, values.device),
                    first_of(
                        device_problem(expected, channel_scales.device),
                        if bias matches Some(bias) && bias.device != expected {
                            Some(Error::DeviceMismatch { expected, got: bias.unwrap().device })
                        } else if emulated {
                            Some(Error::Other(DYNAMIC_NATIVE))
                        } else if b[0] % 16 != 0 || a[1] % 16 != 0 {
                            Some(Error::Other(DYNAMIC_ALIGNMENT))
                        } else if a[0] * b[0] * 2 > usize::MAX {
                            Some(Error::Other(DYNAMIC_OVERFLOW))
                        } else if !build.cutlass_gemm {
                            Some(Error::Other(DYNAMIC_BUILD))
                        } else {
                            None
                        },
                    ),
                ),
            ),
        )
    }
}

/// Dynamic FP8 GEMM with one activation scale per row and one weight scale
/// per output channel. The native backend applies both vectors and an optional
/// BF16 bias before returning the final BF16 matrix.
pub fn gemm_fp8_dynamic_bf16(
    build: &BuildFeatures,
    ctx: &CudaContext,
    activation: &Tensor,
    activation_scales: &Tensor,
    weight: DynamicFp8WeightView<'_>,
    bias: Option<&Tensor>,
    emulated: bool,
) -> (result: Result<DynamicFp8Launch, Error>)
    ensures
        result == unless(
            dynamic_problem(
                *build,
                *ctx,
                *activation,
                *activation_scales,
                weight,
                bias,
                emulated,
            ),
            ({
                let (m, k, n) = (
                    activation.dims@[0],
                    activation.dims@[1],
                    weight.values_e4m3.dims@[0],
                );
                DynamicFp8Launch {
                    activation: activation.buffer.address,
                    weight: weight.values_e4m3.buffer.address,
                    activation_scales: activation_scales.buffer.address,
                    weight_scales: weight.channel_scales.buffer.address,
                    bias: match bias {
                        Some(bias) => Some(bias.buffer.address),
                        None => None,
                    },
                    dims: native_dims(m, n, k),
                    tactic: dynamic_tile(m, n, k),
                    output_bytes: (m * n * 2) as usize,
                    rows: m,
                    cols: n,
                }
            }),
        ),
{
    let values = weight.values_e4m3;
    let channel_scales = weight.channel_scales;
    if activation.dtype != DType::F8E4M3 || values.dtype != DType::F8E4M3 {
        return Err(Error::Operands(DYNAMIC_OPERANDS, activation.dtype, values.dtype));
    }
    if activation_scales.dtype != DType::F32 || channel_scales.dtype != DType::F32 {
        return Err(Error::Operands(DYNAMIC_SCALES, activation_scales.dtype, channel_scales.dtype));
    }
    if activation.dims.len() != 2 || values.dims.len() != 2 || activation.dims[1]
        != values.dims[1] {
        return Err(
            Error::Shapes {
                text: DYNAMIC_SHAPE,
                left: Shape::of(activation.dims.as_slice()),
                right: Shape::of(values.dims.as_slice()),
            },
        );
    }
    let m: usize = activation.dims[0];
    let k: usize = activation.dims[1];
    let n: usize = values.dims[0];
    if activation_scales.dims.len() != 1 || activation_scales.dims[0] != m
        || channel_scales.dims.len() != 1 || channel_scales.dims[0] != n {
        return Err(
            Error::Shapes {
                text: DYNAMIC_SCALE_SHAPE,
                left: Shape::of(activation_scales.dims.as_slice()),
                right: Shape::of(channel_scales.dims.as_slice()),
            },
        );
    }
    if let Some(bias) = bias {
        if bias.dtype != DType::BF16 || bias.dims.len() != 1 || bias.dims[0] != n {
            return Err(
                Error::Operand {
                    text: DYNAMIC_BIAS,
                    dtype: bias.dtype,
                    shape: Shape::of(bias.dims.as_slice()),
                },
            );
        }
    }
    require_device(ctx, activation.device)?;
    require_device(ctx, activation_scales.device)?;
    require_device(ctx, values.device)?;
    require_device(ctx, channel_scales.device)?;
    if let Some(bias) = bias {
        require_device(ctx, bias.device)?;
    }
    if emulated {
        return Err(Error::Other(DYNAMIC_NATIVE));
    }
    if n % 16 != 0 || k % 16 != 0 {
        return Err(Error::Other(DYNAMIC_ALIGNMENT));
    }
    let output_bytes: usize = checked_matrix_bytes(m, n, 2, DYNAMIC_OVERFLOW)?;
    if !build.cutlass_gemm {
        return Err(Error::Other(DYNAMIC_BUILD));
    }
    Ok(
        DynamicFp8Launch {
            activation: activation.buffer.address,
            weight: values.buffer.address,
            activation_scales: activation_scales.buffer.address,
            weight_scales: channel_scales.buffer.address,
            bias: match bias {
                Some(bias) => Some(bias.buffer.address),
                None => None,
            },
            dims: Dims::new(m, n, k),
            tactic: dynamic_fp8_tactic(m, n, k),
            output_bytes,
            rows: m,
            cols: n,
        },
    )
}

/// A gate/up projection whose operands were accepted.
#[derive(Clone, Copy, Debug, PartialEq, Eq, Structural)]
pub struct Fp8GegluRequest {
    /// The whole operator.
    pub key: GemmTuningKey,
    /// The product alone.
    pub plain_key: GemmTuningKey,
    pub activation: CudaBuffer,
    /// The weight in plain layout, where there is one.
    pub plain_weight: Option<CudaBuffer>,
    /// The weight in the dual-GEMM layout, where there is one.
    pub interleaved_weight: Option<CudaBuffer>,
    pub alpha: Factor,
    pub output_scale: u32,
    pub rows: usize,
    pub cols: usize,
}

pub const GEGLU_EXPECTS: &'static str = "FP8 fused GeGLU expects E4M3 operands";

pub const GEGLU_SCALES: &'static str = "FP8 fused GeGLU scales must be finite and positive";

pub const GEGLU_SHAPE: &'static str = "FP8 fused GeGLU shape mismatch";

pub const AUTO_WEIGHT: &'static str = "FP8 dual GeGLU auto-interleaved weight";

pub open spec fn fp8_geglu_problem(
    ctx: CudaContext,
    activation: Tensor,
    activation_scale: u32,
    weight: Fp8WeightView<'_>,
    output_scale: u32,
) -> Option<Error> {
    let expected = Device::Cuda(ctx.device_id);
    let values = *weight.values_e4m3;
    let a = activation.dims@;
    let b = values.dims@;
    if activation.dtype != DType::F8E4M3 || values.dtype != DType::F8E4M3 {
        Some(Error::Operands(GEGLU_EXPECTS, activation.dtype, values.dtype))
    } else if !positive_bits(activation_scale) || !positive_bits(weight.scale) || !positive_bits(
        output_scale,
    ) {
        Some(Error::Other(GEGLU_SCALES))
    } else if !conformable(a, b) || b[1] % 2 != 0 {
        Some(
            Error::Shapes { text: GEGLU_SHAPE, left: shape_of(a), right: shape_of(b) },
        )
    } else {
        first_of(
            device_problem(expected, activation.device),
            first_of(
                device_problem(expected, values.device),
                weight_copy_problem(
                    AUTO_WEIGHT,
                    weight.dual_geglu_auto_interleaved,
                    DType::F8E4M3,
                    b,
                    expected,
                ),
            ),
        )
    }
}

pub open spec fn fp8_geglu_request(
    ctx: CudaContext,
    activation: Tensor,
    activation_scale: u32,
    weight: Fp8WeightView<'_>,
    output_scale: u32,
) -> Fp8GegluRequest {
    let values = *weight.values_e4m3;
    let (m, k, full_n) = (activation.dims@[0], activation.dims@[1], values.dims@[1]);
    Fp8GegluRequest {
        key: fp8_geglu_key(ctx, m, full_n, k),
        plain_key: fp8_key(ctx, m, full_n, k),
        activation: activation.buffer,
        plain_weight: if weight.dual_geglu_interleaved {
            None
        } else {
            Some(values.buffer)
        },
        interleaved_weight: if weight.dual_geglu_interleaved {
            Some(values.buffer)
        } else {
            storage(weight.dual_geglu_auto_interleaved)
        },
        alpha: Factor { left: activation_scale, right: weight.scale },
        output_scale,
        rows: m,
        cols: full_n / 2,
    }
}

/// Accept the operands of the complete FP8 gate/up projection plus GeGLU, or
/// leave it to the caller where the device cannot multiply E4M3 operands. The
/// run that follows is that of `geglu::GegluRun`.
pub fn gemm_fp8_geglu_fused(
    ctx: &CudaContext,
    activation: &Tensor,
    activation_scale: u32,
    packed_weight: Fp8WeightView<'_>,
    output_scale: u32,
    emulated: bool,
) -> (result: Result<Option<Fp8GegluRequest>, Error>)
    ensures
        result == unless(
            fp8_geglu_problem(*ctx, *activation, activation_scale, packed_weight, output_scale),
            if emulated {
                None
            } else {
                Some(
                    fp8_geglu_request(
                        *ctx,
                        *activation,
                        activation_scale,
                        packed_weight,
                        output_scale,
                    ),
                )
            },
        ),
{
    let values = packed_weight.values_e4m3;
    if activation.dtype != DType::F8E4M3 || values.dtype != DType::F8E4M3 {
        return Err(Error::Operands(GEGLU_EXPECTS, activation.dtype, values.dtype));
    }
    if !is_positive(activation_scale) || !is_positive(packed_weight.scale) || !is_positive(
        output_scale,
    ) {
        return Err(Error::Other(GEGLU_SCALES));
    }
    if activation.dims.len() != 2 || values.dims.len() != 2 || activation.dims[1] != values.dims[0]
        || values.dims[1] % 2 != 0 {
        return Err(
            Error::Shapes {
                text: GEGLU_SHAPE,
                left: Shape::of(activation.dims.as_slice()),
                right: Shape::of(values.dims.as_slice()),
            },
        );
    }
    require_device(ctx, activation.device)?;
    require_device(ctx, values.device)?;
    validate_geglu_weight(
        ctx,
        AUTO_WEIGHT,
        packed_weight.dual_geglu_auto_interleaved,
        DType::F8E4M3,
        &values.dims,
    )?;
    if emulated {
        return Ok(None);
    }
    let m: usize = activation.dims[0];
    let k: usize = activation.dims[1];
    let full_n: usize = values.dims[1];
    let automatic = storage_of(packed_weight.dual_geglu_auto_interleaved);
    Ok(
        Some(
            Fp8GegluRequest {
                key: geglu_tuning_key(ctx, m, full_n, k),
                plain_key: tuning_key(ctx, m, full_n, k),
                activation: activation.buffer,
                plain_weight: if packed_weight.dual_geglu_interleaved {
                    None
                } else {
                    Some(values.buffer)
                },
                interleaved_weight: if packed_weight.dual_geglu_interleaved {
                    Some(values.buffer)
                } else {
                    automatic
                },
                alpha: Factor { left: activation_scale, right: packed_weight.scale },
                output_scale,
                rows: m,
                cols: full_n / 2,
            },
        ),
    )
}

/// Tactics that write the packed gate/up product before the activation.
pub open spec fn fp8_uses_gate(tactic: TacticId) -> bool {
    tactic.backend == TacticBackend::GemmThenGeGlu || tactic.backend
        == TacticBackend::CublasLtCustomSplitGeGluCutlass || tactic.backend
        == TacticBackend::CublasLtCustomSplitGeGluCutlass2SmAuto || tactic.backend
        == TacticBackend::CublasLtCustomSplitGeGluCutlass2SmStage3 || tactic.backend
        == TacticBackend::CublasLtCustomSplitGeGluCutlassM522Explicit2Sm
}

pub fn fp8_geglu_tactic_uses_gate(tactic: TacticId) -> (result: bool)
    ensures
        result == fp8_uses_gate(tactic),
{
    match tactic.backend {
        TacticBackend::GemmThenGeGlu
        | TacticBackend::CublasLtCustomSplitGeGluCutlass
        | TacticBackend::CublasLtCustomSplitGeGluCutlass2SmAuto
        | TacticBackend::CublasLtCustomSplitGeGluCutlass2SmStage3
        | TacticBackend::CublasLtCustomSplitGeGluCutlassM522Explicit2Sm => true,
        _ => false,
    }
}

/// The size of a gate buffer.
pub fn fp8_geglu_gate_bytes(m: usize, full_n: usize) -> (result: Result<usize, Error>)
    ensures
        result == matrix_bytes(m, full_n, 2, "FP8 GeGLU gate size overflow"),
{
    checked_matrix_bytes(m, full_n, 2, "FP8 GeGLU gate size overflow")
}

/// The size of the result.
pub fn fp8_geglu_output_bytes(m: usize, n: usize) -> (result: Result<usize, Error>)
    ensures
        result == matrix_bytes(m, n, 1, "FP8 GeGLU output size overflow"),
{
    checked_matrix_bytes(m, n, 1, "FP8 GeGLU output size overflow")
}

pub const INTERLEAVED_ONLY: &'static str =
    "FP8 interleaved-only GeGLU requires an SM110 dual-GEMM weight and kernel";

pub const INTERLEAVED_BUILD: &'static str =
    "FP8 interleaved-only GeGLU requires the SM100-family CUTLASS build";

pub open spec fn interleaved_problem(sm: u32, key: GemmTuningKey, interleaved: bool) -> Option<
    Error,
> {
    if sm != 110 || !interleaved {
        Some(Error::Other(INTERLEAVED_ONLY))
    } else if !dual_record(key.op, key.m, key.n, key.k, 0) {
        Some(Error::Other(DUAL_RECORD))
    } else {
        None
    }
}

pub fn validate_fp8_interleaved_default(
    sm: u32,
    key: &GemmTuningKey,
    has_interleaved_weight: bool,
) -> (result: Result<(), Error>)
    ensures
        result == unless(interleaved_problem(sm, *key, has_interleaved_weight), ()),
{
    if sm != 110 || !has_interleaved_weight {
        return Err(Error::Other(INTERLEAVED_ONLY));
    }
    validate_fp8_dual_geglu_record(key.op, key.m, key.n, key.k, 0)
}

/// The tactic of a shape that was never tuned.
pub open spec fn fp8_geglu_default(
    build: BuildFeatures,
    sm: u32,
    key: GemmTuningKey,
    plain: bool,
    interleaved: bool,
) -> Result<TacticId, Error> {
    if plain {
        Ok(decomposed())
    } else {
        match interleaved_problem(sm, key, interleaved) {
            Some(error) => Err(error),
            None => if build.cutlass_gemm {
                Ok(TacticId { backend: TacticBackend::CutlassFp8DualGeGlu, value: 0 })
            } else {
                Err(Error::Other(INTERLEAVED_BUILD))
            },
        }
    }
}

pub fn default_fp8_geglu_tactic(
    build: &BuildFeatures,
    ctx: &CudaContext,
    key: &GemmTuningKey,
    has_plain_weight: bool,
    has_interleaved_weight: bool,
) -> (result: Result<TacticId, Error>)
    ensures
        result == fp8_geglu_default(
            *build,
            ctx.caps.sm,
            *key,
            has_plain_weight,
            has_interleaved_weight,
        ),
{
    if has_plain_weight {
        return Ok(decomposed_geglu_tactic());
    }
    validate_fp8_interleaved_default(ctx.caps.sm, key, has_interleaved_weight)?;
    if build.cutlass_gemm {
        Ok(TacticId { backend: TacticBackend::CutlassFp8DualGeGlu, value: 0 })
    } else {
        Err(Error::Other(INTERLEAVED_BUILD))
    }
}

pub const NO_PLAIN_PLAN: &'static str = "decomposed FP8 GeGLU has no plain-weight GEMM plan";

pub fn prepare_fp8_geglu_tactic(
    build: &BuildFeatures,
    key: &GemmTuningKey,
    plain_key: &GemmTuningKey,
    plain_plan: Option<PreparedGemmPlan>,
    tactic: TacticId,
    config: Option<CublasLtCustomConfig>,
) -> (result: Result<Preparation, Error>)
    ensures
        result == geglu_preparation(
            *build,
            *key,
            *plain_key,
            plain_plan,
            tactic,
            config,
            NO_PLAIN_PLAN,
        ),
{
    if tactic.backend == TacticBackend::GemmThenGeGlu {
        return match plain_plan {
            Some(plan) => providers::prepare(build, plain_key, plan.tactic, config),
            None => Err(Error::Other(NO_PLAIN_PLAN)),
        };
    }
    providers::prepare(build, key, tactic, config)
}

/// A default tactic can be installed for its key.
pub proof fn lemma_fp8_geglu_default_is_prepared(
    build: BuildFeatures,
    sm: u32,
    key: GemmTuningKey,
    plain: bool,
    interleaved: bool,
    config: Option<CublasLtCustomConfig>,
)
    requires
        key.epilogue == Epilogue::GeGlu,
        fp8_geglu_default(build, sm, key, plain, interleaved) is Ok,
    ensures
        providers::preparation(
            build,
            key,
            fp8_geglu_default(build, sm, key, plain, interleaved).unwrap(),
            config,
        ) == Ok::<Preparation, Error>(providers::no_calls()),
{
}

/// The native calls of one GeGLU tactic, in order.
#[derive(Clone, Copy, Debug, PartialEq, Eq, Structural)]
pub enum Fp8GegluLaunch {
    /// The product, then `apxinf_static_geglu_quant_f16_e4m3`.
    Decomposed {
        gemm: Fp8Launch,
        gate: usize,
        output: usize,
        m: i32,
        n: i32,
        output_scale: u32,
    },
    /// `apxinf_static_cutlass_fp8_dual_gemm_geglu_e4m3`.
    Dual {
        activation: usize,
        weight: usize,
        output: usize,
        dims: Dims,
        full_n: i32,
        alpha: Factor,
        output_scale: u32,
    },
    /// The first half into a gate buffer, then
    /// `apxinf_static_cutlass_fp8_gemm_geglu_e4m3`.
    Split {
        first: Fp8Launch,
        activation: usize,
        weight: usize,
        gate: usize,
        output: usize,
        dims: Dims,
        full_n: i32,
        alpha: Factor,
        output_scale: u32,
        tactic: i32,
    },
}

pub const FP8_CANNOT: &'static str = "FP8 online autotune cannot execute this tactic";

pub const FP8_TUNE_BUILD: &'static str = "CUTLASS FP8 autotune requires an SM100-family build";

/// The call that a tactic makes for a product.
pub open spec fn fp8_tactic_launch(
    build: BuildFeatures,
    key: GemmTuningKey,
    activation: CudaBuffer,
    weight: CudaBuffer,
    output: CudaBuffer,
    alpha: Factor,
    tactic: TacticId,
) -> Result<Fp8Launch, Error> {
    match tactic.backend {
        TacticBackend::Vendor | TacticBackend::CublasLt | TacticBackend::CublasLtCustom => Ok(
            lt_launch(Fp8Form::Whole, activation, weight, output, key.m, key.n, key.k, alpha),
        ),
        TacticBackend::CublasLtCustomSplitSerial => Ok(
            lt_launch(Fp8Form::Split, activation, weight, output, key.m, key.n, key.k, alpha),
        ),
        TacticBackend::Cutlass => if build.cutlass_gemm {
            Ok(
                cutlass_launch(
                    activation,
                    weight,
                    output,
                    key.m,
                    key.n,
                    key.k,
                    alpha,
                    tactic.value,
                ),
            )
        } else {
            Err(Error::Other(FP8_TUNE_BUILD))
        },
        _ => Err(Error::Other(FP8_CANNOT)),
    }
}

/// The call that runs `tactic`.
pub fn launch_tactic_fp8(
    build: &BuildFeatures,
    key: &GemmTuningKey,
    activation: &CudaBuffer,
    weight: &CudaBuffer,
    output: &CudaBuffer,
    alpha: Factor,
    tactic: TacticId,
) -> (result: Result<Fp8Launch, Error>)
    ensures
        result == fp8_tactic_launch(
            *build,
            *key,
            *activation,
            *weight,
            *output,
            alpha,
            tactic,
        ),
{
    match tactic.backend {
        TacticBackend::Vendor | TacticBackend::CublasLt | TacticBackend::CublasLtCustom => Ok(
            cublaslt_fp8_gemm_f16(activation, weight, output, key.m, key.n, key.k, alpha),
        ),
        TacticBackend::CublasLtCustomSplitSerial => Ok(
            cublaslt_fp8_gemm_split_f16(activation, weight, output, key.m, key.n, key.k, alpha),
        ),
        TacticBackend::Cutlass => if build.cutlass_gemm {
            Ok(
                cutlass_fp8_gemm_f16(
                    activation,
                    weight,
                    output,
                    key.m,
                    key.n,
                    key.k,
                    alpha,
                    tactic.value,
                ),
            )
        } else {
            Err(Error::Other(FP8_TUNE_BUILD))
        },
        _ => Err(Error::Other(FP8_CANNOT)),
    }
}

pub const NO_GATE: &'static str = "decomposed FP8 GeGLU has no gate buffer";

pub const NO_PREPARED_PLAN: &'static str = "decomposed FP8 GeGLU has no prepared GEMM plan";

pub const NO_PLAIN_WEIGHT: &'static str = "decomposed FP8 GeGLU has no plain-layout weight";

pub const NO_DUAL_WEIGHT: &'static str = "FP8 dual-GEMM GeGLU has no interleaved weight";

pub const NO_DUAL_BUILD: &'static str =
    "FP8 dual-GEMM GeGLU requires the SM100-family CUTLASS build";

pub const NO_SPLIT_GATE: &'static str = "split FP8 GeGLU has no gate buffer";

pub const NO_SPLIT_WEIGHT: &'static str = "split FP8 GeGLU has no plain-layout weight";

pub const SPLIT_SHAPE: &'static str = "split FP8 GeGLU tactic requires an exact shape";

pub const NO_SPLIT_BUILD: &'static str = "split FP8 GeGLU requires the SM100-family CUTLASS build";

pub const GEGLU_CANNOT: &'static str = "FP8 GeGLU online autotune cannot execute this tactic";

/// The CUTLASS tactic of a split GeGLU backend, and the rows it is built for.
pub open spec fn split_tactic(backend: TacticBackend) -> Option<(i32, usize)> {
    match backend {
        TacticBackend::CublasLtCustomSplitGeGluCutlass => Some((0, 778)),
        TacticBackend::CublasLtCustomSplitGeGluCutlass2SmAuto => Some((1, 778)),
        TacticBackend::CublasLtCustomSplitGeGluCutlass2SmStage3 => Some((2, 778)),
        TacticBackend::CublasLtCustomSplitGeGluCutlassM522Explicit2Sm => Some((3, 522)),
        _ => None,
    }
}

fn split_tactic_of(backend: TacticBackend) -> (result: Option<(i32, usize)>)
    ensures
        result == split_tactic(backend),
{
    match backend {
        TacticBackend::CublasLtCustomSplitGeGluCutlass => Some((0, 778)),
        TacticBackend::CublasLtCustomSplitGeGluCutlass2SmAuto => Some((1, 778)),
        TacticBackend::CublasLtCustomSplitGeGluCutlass2SmStage3 => Some((2, 778)),
        TacticBackend::CublasLtCustomSplitGeGluCutlassM522Explicit2Sm => Some((3, 522)),
        _ => None,
    }
}

/// The calls that a GeGLU tactic makes, or what it lacks.
pub open spec fn fp8_geglu_launch(
    build: BuildFeatures,
    key: GemmTuningKey,
    plain_plan: Option<PreparedGemmPlan>,
    activation: CudaBuffer,
    plain_weight: Option<CudaBuffer>,
    interleaved_weight: Option<CudaBuffer>,
    gate: Option<CudaBuffer>,
    output: CudaBuffer,
    alpha: Factor,
    output_scale: u32,
    tactic: TacticId,
) -> Result<Fp8GegluLaunch, Error> {
    let n = key.n / 2;
    if tactic.backend == TacticBackend::GemmThenGeGlu {
        match (gate, plain_plan, plain_weight) {
            (None, _, _) => Err(Error::Other(NO_GATE)),
            (_, None, _) => Err(Error::Other(NO_PREPARED_PLAN)),
            (_, _, None) => Err(Error::Other(NO_PLAIN_WEIGHT)),
            (Some(gate), Some(plan), Some(weight)) => match fp8_tactic_launch(
                build,
                plan.key,
                activation,
                weight,
                gate,
                alpha,
                plan.tactic,
            ) {
                Ok(gemm) => Ok(
                    Fp8GegluLaunch::Decomposed {
                        gemm,
                        gate: gate.address,
                        output: output.address,
                        m: key.m as i32,
                        n: n as i32,
                        output_scale,
                    },
                ),
                Err(error) => Err(error),
            },
        }
    } else if tactic.backend == TacticBackend::CutlassFp8DualGeGlu {
        match interleaved_weight {
            None => Err(Error::Other(NO_DUAL_WEIGHT)),
            Some(weight) => if build.cutlass_gemm {
                Ok(
                    Fp8GegluLaunch::Dual {
                        activation: activation.address,
                        weight: weight.address,
                        output: output.address,
                        dims: native_dims(key.m, n, key.k),
                        full_n: key.n as i32,
                        alpha,
                        output_scale,
                    },
                )
            } else {
                Err(Error::Other(NO_DUAL_BUILD))
            },
        }
    } else {
        match split_tactic(tactic.backend) {
            None => Err(Error::Other(GEGLU_CANNOT)),
            Some((cutlass_tactic, expected_m)) => match (gate, plain_weight) {
                (None, _) => Err(Error::Other(NO_SPLIT_GATE)),
                (_, None) => Err(Error::Other(NO_SPLIT_WEIGHT)),
                (Some(gate), Some(weight)) => if key.m != expected_m || key.n != 32768 || key.k
                    != 2048 {
                    Err(Error::Number(SPLIT_SHAPE, expected_m as i64))
                } else if build.cutlass_gemm {
                    Ok(
                        Fp8GegluLaunch::Split {
                            first: lt_launch(
                                Fp8Form::SplitFirst,
                                activation,
                                weight,
                                gate,
                                key.m,
                                key.n,
                                key.k,
                                alpha,
                            ),
                            activation: activation.address,
                            weight: weight.address,
                            gate: gate.address,
                            output: output.address,
                            dims: native_dims(key.m, n, key.k),
                            full_n: key.n as i32,
                            alpha,
                            output_scale,
                            tactic: cutlass_tactic,
                        },
                    )
                } else {
                    Err(Error::Other(NO_SPLIT_BUILD))
                },
            },
        }
    }
}

/// The calls that run a GeGLU tactic.
pub fn launch_fp8_geglu_tactic(
    build: &BuildFeatures,
    key: &GemmTuningKey,
    plain_plan: Option<PreparedGemmPlan>,
    activation: &CudaBuffer,
    plain_weight: Option<CudaBuffer>,
    interleaved_weight: Option<CudaBuffer>,
    gate: Option<CudaBuffer>,
    output: &CudaBuffer,
    alpha: Factor,
    output_scale: u32,
    tactic: TacticId,
) -> (result: Result<Fp8GegluLaunch, Error>)
    ensures
        result == fp8_geglu_launch(
            *build,
            *key,
            plain_plan,
            *activation,
            plain_weight,
            interleaved_weight,
            gate,
            *output,
            alpha,
            output_scale,
            tactic,
        ),
{
    let n: usize = key.n / 2;
    match tactic.backend {
        TacticBackend::GemmThenGeGlu => {
            let gate = match gate {
                Some(gate) => gate,
                None => {
                    return Err(Error::Other(NO_GATE));
                },
            };
            let plan = match plain_plan {
                Some(plan) => plan,
                None => {
                    return Err(Error::Other(NO_PREPARED_PLAN));
                },
            };
            let weight = match plain_weight {
                Some(weight) => weight,
                None => {
                    return Err(Error::Other(NO_PLAIN_WEIGHT));
                },
            };
            let gemm = launch_tactic_fp8(
                build,
                &plan.key,
                activation,
                &weight,
                &gate,
                alpha,
                plan.tactic,
            )?;
            Ok(
                Fp8GegluLaunch::Decomposed {
                    gemm,
                    gate: gate.address,
                    output: output.address,
                    m: key.m as i32,
                    n: n as i32,
                    output_scale,
                },
            )
        },
        TacticBackend::CutlassFp8DualGeGlu => {
            let weight = match interleaved_weight {
                Some(weight) => weight,
                None => {
                    return Err(Error::Other(NO_DUAL_WEIGHT));
                },
            };
            if !build.cutlass_gemm {
                return Err(Error::Other(NO_DUAL_BUILD));
            }
            Ok(
                Fp8GegluLaunch::Dual {
                    activation: activation.address,
                    weight: weight.address,
                    output: output.address,
                    dims: Dims::new(key.m, n, key.k),
                    full_n: key.n as i32,
                    alpha,
                    output_scale,
                },
            )
        },
        _ => {
            let (cutlass_tactic, expected_m) = match split_tactic_of(tactic.backend) {
                Some(found) => found,
                None => {
                    return Err(Error::Other(GEGLU_CANNOT));
                },
            };
            let gate = match gate {
                Some(gate) => gate,
                None => {
                    return Err(Error::Other(NO_SPLIT_GATE));
                },
            };
            let weight = match plain_weight {
                Some(weight) => weight,
                None => {
                    return Err(Error::Other(NO_SPLIT_WEIGHT));
                },
            };
            if key.m != expected_m || key.n != 32768 || key.k != 2048 {
                return Err(Error::Number(SPLIT_SHAPE, expected_m as i64));
            }
            if !build.cutlass_gemm {
                return Err(Error::Other(NO_SPLIT_BUILD));
            }
            Ok(
                Fp8GegluLaunch::Split {
                    first: cublaslt_fp8_gemm_split_first_f16(
                        activation,
                        &weight,
                        &gate,
                        key.m,
                        key.n,
                        key.k,
                        alpha,
                    ),
                    activation: activation.address,
                    weight: weight.address,
                    gate: gate.address,
                    output: output.address,
                    dims: Dims::new(key.m, n, key.k),
                    full_n: key.n as i32,
                    alpha,
                    output_scale,
                    tactic: cutlass_tactic,
                },
            )
        },
    }
}

/// The weight that a product reads.
pub open spec fn fp8_weight_read(launch: Fp8Launch) -> usize {
    match launch {
        Fp8Launch::CublasLt { weight, .. } => weight,
        Fp8Launch::Cutlass { weight, .. } => weight,
    }
}

/// Every route but the dual one reads the weight in plain layout, and only the
/// dual route reads the interleaved one.
pub proof fn lemma_fp8_routes_read_their_layout(
    build: BuildFeatures,
    key: GemmTuningKey,
    plain_plan: Option<PreparedGemmPlan>,
    activation: CudaBuffer,
    plain_weight: Option<CudaBuffer>,
    interleaved_weight: Option<CudaBuffer>,
    gate: Option<CudaBuffer>,
    output: CudaBuffer,
    alpha: Factor,
    output_scale: u32,
    tactic: TacticId,
)
    ensures
        match fp8_geglu_launch(
            build,
            key,
            plain_plan,
            activation,
            plain_weight,
            interleaved_weight,
            gate,
            output,
            alpha,
            output_scale,
            tactic,
        ) {
            Ok(Fp8GegluLaunch::Decomposed { gemm, .. }) => plain_weight matches Some(plain)
                && fp8_weight_read(gemm) == plain.address,
            Ok(Fp8GegluLaunch::Split { first, weight, .. }) => plain_weight matches Some(plain)
                && fp8_weight_read(first) == plain.address && weight == plain.address,
            Ok(Fp8GegluLaunch::Dual { weight, .. }) => interleaved_weight matches Some(interleaved)
                && weight == interleaved.address,
            Err(_) => true,
        },
{
}

/// A weight that exists only in the interleaved layout is refused by the plain
/// product, and the fused operator runs it by nothing but the dual kernel.
pub proof fn lemma_interleaved_weight_only_runs_dual(
    ctx: CudaContext,
    build: BuildFeatures,
    activation: Tensor,
    activation_scale: u32,
    weight: Fp8WeightView<'_>,
    output_scale: u32,
    plain_plan: Option<PreparedGemmPlan>,
    gate: Option<CudaBuffer>,
    output: CudaBuffer,
    tactic: TacticId,
)
    requires
        weight.dual_geglu_interleaved,
    ensures
        fp8_problem(ctx, activation, activation_scale, weight) == Some(Error::Other(INTERLEAVED)),
        ({
            let request = fp8_geglu_request(
                ctx,
                activation,
                activation_scale,
                weight,
                output_scale,
            );
            fp8_geglu_launch(
                build,
                request.key,
                plain_plan,
                request.activation,
                request.plain_weight,
                request.interleaved_weight,
                gate,
                output,
                request.alpha,
                request.output_scale,
                tactic,
            ) matches Ok(launch) ==> launch matches Fp8GegluLaunch::Dual { weight: read, .. }
                && read == weight.values_e4m3.buffer.address
        }),
{
}

/// A weight that exists only in the interleaved layout is refused by the
/// products with a BF16 result too.
pub proof fn lemma_interleaved_weight_has_no_bf16_product(
    ctx: CudaContext,
    activation: Tensor,
    activation_scale: u32,
    weight: Fp8WeightView<'_>,
    bias: Tensor,
    native: bool,
)
    requires
        weight.dual_geglu_interleaved,
    ensures
        fp8_bf16_problem(ctx, activation, activation_scale, weight, native) is Some,
        fp8_bias_problem(ctx, activation, activation_scale, weight, bias, native) is Some,
{
}

/// What a tuning run of a GeGLU measures.
#[derive(Debug)]
pub struct Fp8GegluAutotune {
    pub elements: usize,
    pub gate_bytes: usize,
    /// The size of the FP16 copy that results are compared in.
    pub decoded_bytes: usize,
    pub reference: TacticId,
    pub candidates: Vec<TacticId>,
}

/// Whether the operands at hand let a candidate run.
pub open spec fn fp8_runnable(tactic: TacticId, plain: bool, interleaved: bool) -> bool {
    match tactic.backend {
        TacticBackend::GemmThenGeGlu => plain,
        TacticBackend::CutlassFp8DualGeGlu => interleaved,
        _ => true,
    }
}

fn runnable(tactic: TacticId, plain: bool, interleaved: bool) -> (result: bool)
    ensures
        result == fp8_runnable(tactic, plain, interleaved),
{
    match tactic.backend {
        TacticBackend::GemmThenGeGlu => plain,
        TacticBackend::CutlassFp8DualGeGlu => interleaved,
        _ => true,
    }
}

pub const GEGLU_OUTPUT_OVERFLOW: &'static str = "FP8 GeGLU autotune output size overflow";

pub const GEGLU_GATE_OVERFLOW: &'static str = "FP8 GeGLU autotune gate size overflow";

/// Plan a tuning run of a GeGLU over those of the `offered` tactics that the
/// operands at hand let run.
pub fn autotune_request_fp8_geglu(
    key: &GemmTuningKey,
    plain: bool,
    interleaved: bool,
    offered: &Vec<TacticId>,
) -> (result: Result<Fp8GegluAutotune, Error>)
    ensures
        if key.m * (key.n / 2) > usize::MAX {
            result == Err::<Fp8GegluAutotune, Error>(Error::Other(GEGLU_OUTPUT_OVERFLOW))
        } else if key.m * key.n * 2 > usize::MAX {
            result == Err::<Fp8GegluAutotune, Error>(Error::Other(GEGLU_GATE_OVERFLOW))
        } else {
            result matches Ok(request) && {
                &&& request.elements == key.m * (key.n / 2)
                &&& request.gate_bytes == key.m * key.n * 2
                &&& request.decoded_bytes == key.m * (key.n / 2) * 2
                &&& request.reference == (if plain {
                    decomposed()
                } else {
                    TacticId { backend: TacticBackend::CutlassFp8DualGeGlu, value: 0 }
                })
                &&& request.candidates@ == offered@.filter(
                    |tactic: TacticId| fp8_runnable(tactic, plain, interleaved),
                )
            }
        },
{
    let half: usize = key.n / 2;
    let elements: usize = match key.m.checked_mul(half) {
        Some(elements) => elements,
        None => {
            return Err(Error::Other(GEGLU_OUTPUT_OVERFLOW));
        },
    };
    let gate_bytes: usize = checked_matrix_bytes(key.m, key.n, 2, GEGLU_GATE_OVERFLOW)?;
    proof {
        assert(key.m * half * 2 <= key.m * key.n * 2) by (nonlinear_arith)
            requires
                half <= key.n,
                key.m >= 0,
        ;
    }
    let decoded_bytes: usize = elements * 2;
    let reference = if plain {
        decomposed_geglu_tactic()
    } else {
        TacticId { backend: TacticBackend::CutlassFp8DualGeGlu, value: 0 }
    };
    let ghost keep = |tactic: TacticId| fp8_runnable(tactic, plain, interleaved);
    let mut candidates: Vec<TacticId> = Vec::new();
    let mut i: usize = 0;
    assert(offered@.take(0).filter(keep) =~= Seq::<TacticId>::empty()) by {
        reveal(Seq::filter);
    }
    while i < offered.len()
        invariant
            i <= offered.len(),
            keep == (|tactic: TacticId| fp8_runnable(tactic, plain, interleaved)),
            candidates@ == offered@.take(i as int).filter(keep),
        decreases offered.len() - i,
    {
        assert(offered@.take(i + 1).drop_last() =~= offered@.take(i as int));
        assert(offered@.take(i + 1).filter(keep) == if keep(offered@[i as int]) {
            offered@.take(i as int).filter(keep).push(offered@[i as int])
        } else {
            offered@.take(i as int).filter(keep)
        }) by {
            reveal(Seq::filter);
        }
        if runnable(offered[i], plain, interleaved) {
            candidates.push(offered[i]);
        }
        i = i + 1;
    }
    assert(offered@.take(i as int) =~= offered@);
    Ok(Fp8GegluAutotune { elements, gate_bytes, decoded_bytes, reference, candidates })
}

/// How a result is brought to the host for comparison.
#[derive(Clone, Copy, Debug, PartialEq, Eq, Structural)]
pub enum FusedReadback {
    /// Copy so many FP16 elements.
    Direct { source: usize, elements: usize },
    /// Decode into FP16 first.
    Decoded { decode: Dequantize, source: usize, elements: usize },
}

pub const NO_DECODE: &'static str = "FP8 fused autotune has no decode buffer";

pub const FUSED_DTYPE: &'static str = "unsupported FP8 fused autotune output dtype";

pub fn copy_fused_output(
    output: &CudaBuffer,
    decoded: Option<CudaBuffer>,
    elements: usize,
    dtype: DType,
    dequantization_scale: u32,
) -> (result: Result<FusedReadback, Error>)
    ensures
        result == (match dtype {
            DType::F16 => Ok::<FusedReadback, Error>(
                FusedReadback::Direct { source: output.address, elements },
            ),
            DType::F8E4M3 => match decoded {
                Some(decoded) => Ok(
                    FusedReadback::Decoded {
                        decode: dequantize_call(
                            *output,
                            decoded,
                            elements,
                            Factor { left: dequantization_scale, right: ONE },
                        ),
                        source: decoded.address,
                        elements,
                    },
                ),
                None => Err(Error::Other(NO_DECODE)),
            },
            _ => Err(Error::UnsupportedDType { operation: FUSED_DTYPE, dtype }),
        }),
{
    match dtype {
        DType::F16 => Ok(FusedReadback::Direct { source: output.address, elements }),
        DType::F8E4M3 => match decoded {
            Some(decoded) => Ok(
                FusedReadback::Decoded {
                    decode: dequantize_e4m3_f16(
                        output,
                        &decoded,
                        elements,
                        Factor { left: dequantization_scale, right: ONE },
                    ),
                    source: decoded.address,
                    elements,
                },
            ),
            None => Err(Error::Other(NO_DECODE)),
        },
        _ => Err(Error::UnsupportedDType { operation: FUSED_DTYPE, dtype }),
    }
}

/// What a tuning run of a product measures.
#[derive(Debug)]
pub struct Fp8Autotune {
    pub elements: usize,
    pub output_bytes: usize,
    /// The size of the FP16 copy that results are compared in, where the
    /// result is no FP16 matrix.
    pub decoded_bytes: Option<usize>,
    /// The sizes of the FP16 copies that the reference is computed from, where
    /// it is.
    pub reference_bytes: Option<DecodedBytes>,
    pub candidates: Vec<TacticCandidate>,
}

pub const FUSED_OVERFLOW: &'static str = "FP8 fused autotune output size overflow";

/// Plan a tuning run of a product with a fused epilogue. Its reference is the
/// vendor route.
pub fn autotune_request_fp8_fused(
    build: &BuildFeatures,
    key: &GemmTuningKey,
    output_dtype: DType,
) -> (result: Result<Fp8Autotune, Error>)
    requires
        output_dtype == DType::F8E4M3 ==> key.m * key.n * 2 <= usize::MAX,
    ensures
        ({
            let width = crate::types::dtype_size(output_dtype);
            if key.m * key.n * width > usize::MAX {
                result == Err::<Fp8Autotune, Error>(Error::Other(FUSED_OVERFLOW))
            } else {
                result matches Ok(request) && {
                    &&& request.elements == key.m * key.n
                    &&& request.output_bytes == key.m * key.n * width
                    &&& request.decoded_bytes == (if output_dtype == DType::F8E4M3 {
                        Some((key.m * key.n * 2) as usize)
                    } else {
                        None
                    })
                    &&& request.reference_bytes is None
                    &&& request.candidates@ == providers::offered(*build, *key, 32).map_values(
                        |tactic: TacticId| TacticCandidate { tactic },
                    )
                }
            }
        }),
{
    let width: usize = output_dtype.size_in_bytes();
    let output_bytes: usize = checked_matrix_bytes(key.m, key.n, width, FUSED_OVERFLOW)?;
    proof {
        let p = key.m * key.n;
        assert(p * width >= p) by (nonlinear_arith)
            requires
                p >= 0,
                width >= 1,
        ;
    }
    let elements: usize = key.m * key.n;
    let decoded_bytes = if output_dtype == DType::F8E4M3 {
        Some(elements * 2)
    } else {
        None
    };
    Ok(
        Fp8Autotune {
            elements,
            output_bytes,
            decoded_bytes,
            reference_bytes: None,
            candidates: providers::candidates(build, key, 32),
        },
    )
}

pub const TUNE_OUTPUT_OVERFLOW: &'static str = "FP8 autotune output size overflow";

pub const TUNE_ACTIVATION_OVERFLOW: &'static str = "FP8 autotune activation size overflow";

pub const TUNE_WEIGHT_OVERFLOW: &'static str = "FP8 autotune weight size overflow";

/// Plan a tuning run of a plain product. Its reference is independent of the
/// tuned providers: the operands decoded to FP16 and multiplied by cuBLAS.
pub fn autotune_request_fp8(build: &BuildFeatures, key: &GemmTuningKey) -> (result: Result<
    Fp8Autotune,
    Error,
>)
    ensures
        if key.m * key.n * 2 > usize::MAX {
            result == Err::<Fp8Autotune, Error>(Error::Other(TUNE_OUTPUT_OVERFLOW))
        } else if key.m * key.k * 2 > usize::MAX {
            result == Err::<Fp8Autotune, Error>(Error::Other(TUNE_ACTIVATION_OVERFLOW))
        } else if key.k * key.n * 2 > usize::MAX {
            result == Err::<Fp8Autotune, Error>(Error::Other(TUNE_WEIGHT_OVERFLOW))
        } else {
            result matches Ok(request) && {
                &&& request.elements == key.m * key.n
                &&& request.output_bytes == key.m * key.n * 2
                &&& request.decoded_bytes is None
                &&& request.reference_bytes == Some(
                    (DecodedBytes {
                        activation: (key.m * key.k * 2) as usize,
                        weight: (key.k * key.n * 2) as usize,
                    }),
                )
                &&& request.candidates@ == providers::offered(*build, *key, 32).map_values(
                    |tactic: TacticId| TacticCandidate { tactic },
                )
            }
        },
{
    let output_bytes: usize = checked_matrix_bytes(key.m, key.n, 2, TUNE_OUTPUT_OVERFLOW)?;
    proof {
        assert(key.m * key.n <= key.m * key.n * 2) by (nonlinear_arith);
    }
    let elements: usize = key.m * key.n;
    let activation: usize = checked_matrix_bytes(key.m, key.k, 2, TUNE_ACTIVATION_OVERFLOW)?;
    let weight: usize = checked_matrix_bytes(key.k, key.n, 2, TUNE_WEIGHT_OVERFLOW)?;
    Ok(
        Fp8Autotune {
            elements,
            output_bytes,
            decoded_bytes: None,
            reference_bytes: Some(DecodedBytes { activation, weight }),
            candidates: providers::candidates(build, key, 32),
        },
    )
}

/// The calls that compute the reference of a tuning run: the activation is
/// decoded as it is, the weight with both scales.
pub fn fp8_reference_calls(
    cublas: &CublasHandle,
    key: &GemmTuningKey,
    activation: &CudaBuffer,
    weight: &CudaBuffer,
    alpha: Factor,
    activation_f16: &CudaBuffer,
    weight_f16: &CudaBuffer,
    output: &CudaBuffer,
) -> (result: Result<Fp8Emulation, Error>)
    requires
        key.m * key.k <= usize::MAX,
        key.k * key.n <= usize::MAX,
    ensures
        result == Ok::<Fp8Emulation, Error>(
            Fp8Emulation {
                activation: dequantize_call(
                    *activation,
                    *activation_f16,
                    (key.m * key.k) as usize,
                    Factor { left: ONE, right: ONE },
                ),
                weight: dequantize_call(*weight, *weight_f16, (key.k * key.n) as usize, alpha),
                gemm: f16_gemm(key.m, key.n, key.k, *activation_f16, *weight_f16, *output),
            },
        ),
{
    let gemm = cublas.gemm(
        DType::F16,
        key.m,
        key.n,
        key.k,
        ONE,
        activation_f16,
        weight_f16,
        ZERO,
        output,
    )?;
    Ok(
        Fp8Emulation {
            activation: dequantize_e4m3_f16(
                activation,
                activation_f16,
                key.m * key.k,
                Factor { left: ONE, right: ONE },
            ),
            weight: dequantize_e4m3_f16(weight, weight_f16, key.k * key.n, alpha),
            gemm,
        },
    )
}

pub const INVALID_RANK: &'static str = "invalid static inference cuBLASLt heuristic rank";

pub const INVALID_CUSTOM: &'static str = "invalid static inference cuBLASLt custom tactic";

pub const INVALID_BIAS: &'static str =
    "invalid static inference cuBLASLt fused-bias custom tactic";

pub const INVALID_SPLIT: &'static str =
    "invalid static inference cuBLASLt split-serial custom tactic";

pub const NO_FUSED_EPILOGUE: &'static str =
    "this operator cannot use a fused cuBLASLt bias epilogue configuration";

pub open spec fn heuristic_call(m: usize, n: usize, k: usize, rank: i32) -> Result<
    ProviderCall,
    Error,
> {
    if 0 <= rank < 64 {
        Ok(ProviderCall::Fp8Heuristic { dims: native_dims(m, n, k), rank })
    } else {
        Err(Error::Number(INVALID_RANK, rank as i64))
    }
}

pub fn set_cublaslt_gemm_heuristic(m: usize, n: usize, k: usize, heuristic_rank: i32) -> (result:
    Result<ProviderCall, Error>)
    ensures
        result == heuristic_call(m, n, k, heuristic_rank),
{
    if !(0 <= heuristic_rank && heuristic_rank < 64) {
        return Err(Error::Number(INVALID_RANK, heuristic_rank as i64));
    }
    Ok(ProviderCall::Fp8Heuristic { dims: Dims::new(m, n, k), rank: heuristic_rank })
}

/// The number of a fused epilogue in the native interface.
pub open spec fn epilogue_id(epilogue: Epilogue) -> Result<i32, Error> {
    match epilogue {
        Epilogue::Bias => Ok(1),
        Epilogue::BiasGelu => Ok(2),
        Epilogue::BiasResidual => Ok(3),
        Epilogue::Plain | Epilogue::GeGlu => Err(Error::Other(NO_FUSED_EPILOGUE)),
    }
}

pub fn fused_epilogue_id(epilogue: Epilogue) -> (result: Result<i32, Error>)
    ensures
        result == epilogue_id(epilogue),
{
    match epilogue {
        Epilogue::Bias => Ok(1),
        Epilogue::BiasGelu => Ok(2),
        Epilogue::BiasResidual => Ok(3),
        Epilogue::Plain | Epilogue::GeGlu => Err(Error::Other(NO_FUSED_EPILOGUE)),
    }
}

pub open spec fn fused_heuristic_call(
    m: usize,
    n: usize,
    k: usize,
    epilogue: Epilogue,
    rank: i32,
) -> Result<ProviderCall, Error> {
    if !(0 <= rank < 64) {
        Err(Error::Number(INVALID_RANK, rank as i64))
    } else {
        match epilogue_id(epilogue) {
            Ok(id) => Ok(
                ProviderCall::Fp8FusedHeuristic {
                    dims: native_dims(m, n, k),
                    epilogue: id,
                    rank,
                },
            ),
            Err(error) => Err(error),
        }
    }
}

pub fn set_cublaslt_fused_gemm_heuristic(
    m: usize,
    n: usize,
    k: usize,
    epilogue: Epilogue,
    heuristic_rank: i32,
) -> (result: Result<ProviderCall, Error>)
    ensures
        result == fused_heuristic_call(m, n, k, epilogue, heuristic_rank),
{
    if !(0 <= heuristic_rank && heuristic_rank < 64) {
        return Err(Error::Number(INVALID_RANK, heuristic_rank as i64));
    }
    let id: i32 = fused_epilogue_id(epilogue)?;
    Ok(
        ProviderCall::Fp8FusedHeuristic {
            dims: Dims::new(m, n, k),
            epilogue: id,
            rank: heuristic_rank,
        },
    )
}

pub open spec fn custom_call(
    m: usize,
    n: usize,
    k: usize,
    tactic: i32,
    config: Option<CublasLtCustomConfig>,
) -> Result<ProviderCall, Error> {
    match config {
        Some(config) => Ok(ProviderCall::Fp8Custom { dims: native_dims(m, n, k), config }),
        None => Err(Error::Number(INVALID_CUSTOM, tactic as i64)),
    }
}

/// Configure a custom algorithm; `config` is what `tactic` decodes to.
pub fn set_cublaslt_gemm_custom(
    m: usize,
    n: usize,
    k: usize,
    tactic: i32,
    config: Option<CublasLtCustomConfig>,
) -> (result: Result<ProviderCall, Error>)
    ensures
        result == custom_call(m, n, k, tactic, config),
{
    match config {
        Some(config) => Ok(ProviderCall::Fp8Custom { dims: Dims::new(m, n, k), config }),
        None => Err(Error::Number(INVALID_CUSTOM, tactic as i64)),
    }
}

pub open spec fn bias_custom_call(
    m: usize,
    n: usize,
    k: usize,
    epilogue: Epilogue,
    tactic: i32,
    config: Option<CublasLtCustomConfig>,
) -> Result<ProviderCall, Error> {
    match config {
        Some(config) => match epilogue_id(epilogue) {
            Ok(id) => Ok(
                ProviderCall::Fp8BiasCustom { dims: native_dims(m, n, k), epilogue: id, config },
            ),
            Err(error) => Err(error),
        },
        None => Err(Error::Number(INVALID_BIAS, tactic as i64)),
    }
}

/// Configure a custom algorithm of a product with a fused bias.
pub fn set_cublaslt_gemm_bias_custom(
    m: usize,
    n: usize,
    k: usize,
    epilogue: Epilogue,
    tactic: i32,
    config: Option<CublasLtCustomConfig>,
) -> (result: Result<ProviderCall, Error>)
    ensures
        result == bias_custom_call(m, n, k, epilogue, tactic, config),
{
    match config {
        Some(config) => {
            let id: i32 = fused_epilogue_id(epilogue)?;
            Ok(ProviderCall::Fp8BiasCustom { dims: Dims::new(m, n, k), epilogue: id, config })
        },
        None => Err(Error::Number(INVALID_BIAS, tactic as i64)),
    }
}

pub open spec fn split_custom_call(
    m: usize,
    n: usize,
    k: usize,
    tactic: i32,
    config: Option<CublasLtCustomConfig>,
) -> Result<ProviderCall, Error> {
    match config {
        Some(config) => Ok(ProviderCall::Fp8SplitCustom { dims: native_dims(m, n, k), config }),
        None => Err(Error::Number(INVALID_SPLIT, tactic as i64)),
    }
}

/// Configure a custom algorithm of the split product.
pub fn set_cublaslt_gemm_split_custom(
    m: usize,
    n: usize,
    k: usize,
    tactic: i32,
    config: Option<CublasLtCustomConfig>,
) -> (result: Result<ProviderCall, Error>)
    ensures
        result == split_custom_call(m, n, k, tactic, config),
{
    match config {
        Some(config) => Ok(ProviderCall::Fp8SplitCustom { dims: Dims::new(m, n, k), config }),
        None => Err(Error::Number(INVALID_SPLIT, tactic as i64)),
    }
}

pub open spec fn prepare_call(m: usize, n: usize, k: usize) -> ProviderCall {
    ProviderCall::Fp8Prepare { dims: native_dims(m, n, k) }
}

pub fn prepare_cublaslt_fp8_gemm(m: usize, n: usize, k: usize) -> (call: ProviderCall)
    ensures
        call == prepare_call(m, n, k),
{
    ProviderCall::Fp8Prepare { dims: Dims::new(m, n, k) }
}

pub open spec fn prepare_split_call(m: usize, n: usize, k: usize) -> ProviderCall {
    ProviderCall::Fp8PrepareSplit { dims: native_dims(m, n, k) }
}

pub fn prepare_cublaslt_fp8_gemm_split(m: usize, n: usize, k: usize) -> (call: ProviderCall)
    ensures
        call == prepare_split_call(m, n, k),
{
    ProviderCall::Fp8PrepareSplit { dims: Dims::new(m, n, k) }
}

pub open spec fn bf16_prepare_call(m: usize, n: usize, k: usize) -> ProviderCall {
    ProviderCall::Fp8Bf16Prepare { dims: native_dims(m, n, k) }
}

pub fn prepare_cublaslt_fp8_gemm_bf16(m: usize, n: usize, k: usize) -> (call: ProviderCall)
    ensures
        call == bf16_prepare_call(m, n, k),
{
    ProviderCall::Fp8Bf16Prepare { dims: Dims::new(m, n, k) }
}

pub open spec fn bf16_heuristic_call(m: usize, n: usize, k: usize, rank: i32) -> ProviderCall {
    ProviderCall::Fp8Bf16Heuristic { dims: native_dims(m, n, k), rank }
}

pub fn set_cublaslt_fp8_bf16_gemm_heuristic(m: usize, n: usize, k: usize, heuristic_rank: i32) -> (
    call: ProviderCall)
    ensures
        call == bf16_heuristic_call(m, n, k, heuristic_rank),
{
    ProviderCall::Fp8Bf16Heuristic { dims: Dims::new(m, n, k), rank: heuristic_rank }
}

pub const ENTRY: &'static str = "invalid FP8 BF16 tactic entry";

pub const ENTRY_SHAPE: &'static str = "invalid FP8 BF16 tactic shape";

pub const ENTRY_EXTENTS: &'static str = "FP8 BF16 tactic shape must be M,N,K";

pub const ENTRY_RANK: &'static str = "invalid FP8 BF16 tactic rank";

pub const ENTRY_RANGE: &'static str = "FP8 BF16 tactic rank must be in 0..64";

pub const NOT_UNICODE: &'static str = "APXINF_FP8_BF16_CUBLASLT_TACTICS must be valid UTF-8";

/// Whether a piece of a shape is a machine word.
pub open spec fn is_extent(piece: Seq<char>) -> bool {
    parsed_unsigned(piece, usize::MAX as nat) is Some
}

/// What one entry `M,N,K=rank` says of a shape: its rank, or nothing.
pub open spec fn entry_rank(entry: Seq<char>, m: usize, n: usize, k: usize) -> Result<
    Option<i32>,
    Error,
> {
    let at = first_index(entry, '=');
    let extents = pieces(entry.take(at), ',');
    let rank = parsed_i32(entry.skip(at + 1));
    if at == entry.len() {
        Err(Error::Other(ENTRY))
    } else if exists|i: int| 0 <= i < extents.len() && !is_extent(#[trigger] extents[i]) {
        Err(Error::Other(ENTRY_SHAPE))
    } else if extents.len() != 3 {
        Err(Error::Other(ENTRY_EXTENTS))
    } else if rank is None {
        Err(Error::Other(ENTRY_RANK))
    } else if !(0 <= rank.unwrap() < 64) {
        Err(Error::Number(ENTRY_RANGE, rank.unwrap() as i64))
    } else if parsed_unsigned(extents[0], usize::MAX as nat) == Some(m as nat) && parsed_unsigned(
        extents[1],
        usize::MAX as nat,
    ) == Some(n as nat) && parsed_unsigned(extents[2], usize::MAX as nat) == Some(k as nat) {
        Ok(Some(rank.unwrap() as i32))
    } else {
        Ok(None)
    }
}

/// The rank of the first entry with the shape. Empty entries are skipped, and
/// entries behind the one that decides are not looked at.
pub open spec fn listed_rank(entries: Seq<Seq<char>>, m: usize, n: usize, k: usize) -> Result<
    Option<i32>,
    Error,
>
    decreases entries.len(),
{
    if entries.len() == 0 {
        Ok(None)
    } else if entries[0].len() == 0 {
        listed_rank(entries.skip(1), m, n, k)
    } else {
        match entry_rank(entries[0], m, n, k) {
            Ok(None) => listed_rank(entries.skip(1), m, n, k),
            decided => decided,
        }
    }
}

fn parse_entry(entry: &Vec<char>, m: usize, n: usize, k: usize) -> (result: Result<
    Option<i32>,
    Error,
>)
    ensures
        result == entry_rank(entry@, m, n, k),
{
    let at: usize = find(entry, '=');
    if at == entry.len() {
        return Err(Error::Other(ENTRY));
    }
    let shape = slice(entry, 0, at);
    assert(shape@ =~= entry@.take(at as int));
    let extents = split(&shape, ',');
    let ghost parts = pieces(entry@.take(at as int), ',');
    assert(texts(extents@) == parts);
    assert(parts.len() == extents@.len());
    assert forall|j: int| 0 <= j < extents@.len() implies parts[j] == #[trigger] extents@[j]@ by {
        assert(texts(extents@)[j] == extents@[j]@);
    }
    let mut values: Vec<usize> = Vec::new();
    let mut i: usize = 0;
    while i < extents.len()
        invariant
            i <= extents.len(),
            values.len() == i,
            parts.len() == extents@.len(),
            parts == pieces(entry@.take(at as int), ','),
            at == first_index(entry@, '='),
            at < entry@.len(),
            forall|j: int| 0 <= j < extents@.len() ==> parts[j] == #[trigger] extents@[j]@,
            forall|j: int|
                0 <= j < i ==> parsed_unsigned(#[trigger] parts[j], usize::MAX as nat) == Some(
                    values@[j] as nat,
                ),
        decreases extents.len() - i,
    {
        match parse_usize(&extents[i]) {
            Some(value) => {
                assert(parts[i as int] == extents@[i as int]@);
                values.push(value);
            },
            None => {
                assert(parts[i as int] == extents@[i as int]@);
                assert(!is_extent(parts[i as int]));
                return Err(Error::Other(ENTRY_SHAPE));
            },
        }
        i = i + 1;
    }
    assert forall|j: int| 0 <= j < parts.len() implies is_extent(#[trigger] parts[j]) by {}
    if values.len() != 3 {
        return Err(Error::Other(ENTRY_EXTENTS));
    }
    let rank_text = slice(entry, at + 1, entry.len());
    assert(rank_text@ =~= entry@.skip(at + 1));
    let rank: i32 = match parse_i32(&rank_text) {
        Some(rank) => rank,
        None => {
            return Err(Error::Other(ENTRY_RANK));
        },
    };
    if !(0 <= rank && rank < 64) {
        return Err(Error::Number(ENTRY_RANGE, rank as i64));
    }
    assert(parsed_unsigned(parts[0], usize::MAX as nat) == Some(values@[0] as nat));
    assert(parsed_unsigned(parts[1], usize::MAX as nat) == Some(values@[1] as nat));
    assert(parsed_unsigned(parts[2], usize::MAX as nat) == Some(values@[2] as nat));
    if values[0] == m && values[1] == n && values[2] == k {
        return Ok(Some(rank));
    }
    Ok(None)
}

/// Look a shape up in a list `M,N,K=rank;M,N,K=rank`.
pub fn parse_fp8_bf16_heuristic(spec_text: &str, m: usize, n: usize, k: usize) -> (result: Result<
    Option<i32>,
    Error,
>)
    ensures
        result == listed_rank(pieces(spec_text@, ';'), m, n, k),
{
    let chars = chars_of(spec_text);
    let entries = split(&chars, ';');
    let ghost all = pieces(spec_text@, ';');
    assert(texts(entries@) == all);
    let mut i: usize = 0;
    assert(all.skip(0) =~= all);
    while i < entries.len()
        invariant
            i <= entries.len(),
            texts(entries@) == all,
            all == pieces(spec_text@, ';'),
            listed_rank(all, m, n, k) == listed_rank(all.skip(i as int), m, n, k),
        decreases entries.len() - i,
    {
        let ghost rest = all.skip(i as int);
        assert(texts(entries@)[i as int] == entries@[i as int]@);
        assert(rest[0] == entries@[i as int]@);
        assert(rest.skip(1) =~= all.skip(i + 1));
        if entries[i].len() > 0 {
            match parse_entry(&entries[i], m, n, k) {
                Err(error) => {
                    return Err(error);
                },
                Ok(Some(rank)) => {
                    return Ok(Some(rank));
                },
                Ok(None) => {},
            }
        }
        i = i + 1;
    }
    Ok(None)
}

pub open spec fn configured_rank(value: EnvironmentValue, m: usize, n: usize, k: usize) -> Result<
    Option<i32>,
    Error,
> {
    match value {
        EnvironmentValue::Unset => Ok(None),
        EnvironmentValue::NotUnicode => Err(Error::Other(NOT_UNICODE)),
        EnvironmentValue::Text(text) => listed_rank(pieces(text@, ';'), m, n, k),
    }
}

/// The rank that `APXINF_FP8_BF16_CUBLASLT_TACTICS` gives a shape.
pub fn configured_fp8_bf16_heuristic(value: &EnvironmentValue, m: usize, n: usize, k: usize) -> (
    result: Result<Option<i32>, Error>)
    ensures
        result == configured_rank(*value, m, n, k),
{
    match value {
        EnvironmentValue::Unset => Ok(None),
        EnvironmentValue::NotUnicode => Err(Error::Other(NOT_UNICODE)),
        EnvironmentValue::Text(text) => parse_fp8_bf16_heuristic(text.as_str(), m, n, k),
    }
}

/// The rank that was tuned for exactly this shape.
pub open spec fn persisted_rank(ctx: CudaContext, m: usize, n: usize, k: usize) -> Option<i32> {
    match exact_tactic(lookup_record(ctx.tuning.records@, fp8_bf16_key(ctx, m, n, k))) {
        Some(tactic) => if tactic.backend == TacticBackend::CublasLt {
            Some(tactic.value)
        } else {
            None
        },
        None => None,
    }
}

/// The rank to install: the configured one, else the tuned one.
pub open spec fn chosen_rank(
    ctx: CudaContext,
    value: EnvironmentValue,
    m: usize,
    n: usize,
    k: usize,
) -> Result<Option<i32>, Error> {
    match configured_rank(value, m, n, k) {
        Ok(Some(rank)) => Ok(Some(rank)),
        Ok(None) => Ok(persisted_rank(ctx, m, n, k)),
        Err(error) => Err(error),
    }
}

fn choose_rank(ctx: &CudaContext, value: &EnvironmentValue, m: usize, n: usize, k: usize) -> (
    result: Result<Option<i32>, Error>)
    ensures
        result == chosen_rank(*ctx, *value, m, n, k),
{
    match configured_fp8_bf16_heuristic(value, m, n, k)? {
        Some(rank) => Ok(Some(rank)),
        None => match ctx.tuning.lookup_gemm_exact(&bf16_output_tuning_key(ctx, m, n, k)) {
            Some(tactic) => if tactic.backend == TacticBackend::CublasLt {
                Ok(Some(tactic.value))
            } else {
                Ok(None)
            },
            None => Ok(None),
        },
    }
}

/// `apxinf_static_fp8_gemm_bf16`, or `apxinf_static_fp8_gemm_bias_bf16` where
/// there is a bias, with the calls that come before it.
#[derive(Clone, Copy, Debug, PartialEq, Eq, Structural)]
pub struct Fp8Bf16Launch {
    pub configure: Option<ProviderCall>,
    pub prepare: Option<ProviderCall>,
    pub activation: usize,
    pub weight: usize,
    pub bias: Option<usize>,
    pub dims: Dims,
    pub alpha: Factor,
    pub output_bytes: usize,
    pub rows: usize,
    pub cols: usize,
}

pub open spec fn fp8_bf16_launch(
    ctx: CudaContext,
    activation: Tensor,
    activation_scale: u32,
    weight: Fp8WeightView<'_>,
    bias: Option<usize>,
    may_prepare: bool,
    value: EnvironmentValue,
) -> Result<Fp8Bf16Launch, Error> {
    let values = *weight.values_e4m3;
    let (m, k, n) = (activation.dims@[0], activation.dims@[1], values.dims@[1]);
    let rank = if may_prepare {
        chosen_rank(ctx, value, m, n, k)
    } else {
        Ok(None)
    };
    match rank {
        Err(error) => Err(error),
        Ok(rank) => Ok(
            Fp8Bf16Launch {
                configure: match rank {
                    Some(rank) => Some(bf16_heuristic_call(m, n, k, rank)),
                    None => None,
                },
                prepare: if may_prepare {
                    Some(
                        match bias {
                            Some(bias) => ProviderCall::Fp8BiasBf16Prepare {
                                bias,
                                dims: native_dims(m, n, k),
                            },
                            None => bf16_prepare_call(m, n, k),
                        },
                    )
                } else {
                    None
                },
                activation: activation.buffer.address,
                weight: values.buffer.address,
                bias,
                dims: native_dims(m, n, k),
                alpha: Factor { left: activation_scale, right: weight.scale },
                output_bytes: (m * n * 2) as usize,
                rows: m,
                cols: n,
            },
        ),
    }
}

fn plan_fp8_bf16(
    ctx: &CudaContext,
    activation: &Tensor,
    activation_scale: u32,
    weight: Fp8WeightView<'_>,
    bias: Option<usize>,
    may_prepare: bool,
    value: &EnvironmentValue,
) -> (result: Result<Fp8Bf16Launch, Error>)
    requires
        conformable(activation.dims@, weight.values_e4m3.dims@),
        activation.dims@[0] * weight.values_e4m3.dims@[1] * 2 <= usize::MAX,
    ensures
        result == fp8_bf16_launch(
            *ctx,
            *activation,
            activation_scale,
            weight,
            bias,
            may_prepare,
            *value,
        ),
{
    let values = weight.values_e4m3;
    let m: usize = activation.dims[0];
    let k: usize = activation.dims[1];
    let n: usize = values.dims[1];
    proof {
        assert(m * n <= m * n * 2) by (nonlinear_arith);
    }
    let mut configure: Option<ProviderCall> = None;
    let mut prepare: Option<ProviderCall> = None;
    if may_prepare {
        if let Some(rank) = choose_rank(ctx, value, m, n, k)? {
            configure = Some(set_cublaslt_fp8_bf16_gemm_heuristic(m, n, k, rank));
        }
        prepare = Some(
            match bias {
                Some(bias) => ProviderCall::Fp8BiasBf16Prepare { bias, dims: Dims::new(m, n, k) },
                None => prepare_cublaslt_fp8_gemm_bf16(m, n, k),
            },
        );
    }
    Ok(
        Fp8Bf16Launch {
            configure,
            prepare,
            activation: activation.buffer.address,
            weight: values.buffer.address,
            bias,
            dims: Dims::new(m, n, k),
            alpha: Factor { left: activation_scale, right: weight.scale },
            output_bytes: m * n * 2,
            rows: m,
            cols: n,
        },
    )
}

pub const BF16_EXPECTS: &'static str = "gemm_fp8_bf16 expects E4M3 operands";

pub const BF16_INTERLEAVED: &'static str =
    "FP8 dual GeGLU interleaved weight cannot be used by plain FP8 GEMM";

pub const BF16_SCALES: &'static str = "FP8 GEMM scales must be finite and positive";

pub const BF16_SHAPE: &'static str = "gemm_fp8_bf16 shape mismatch";

pub const BF16_NATIVE: &'static str = "FP8-to-BF16 GEMM requires native E4M3 Tensor Core support";

pub open spec fn fp8_bf16_problem(
    ctx: CudaContext,
    activation: Tensor,
    activation_scale: u32,
    weight: Fp8WeightView<'_>,
    native: bool,
) -> Option<Error> {
    let expected = Device::Cuda(ctx.device_id);
    let values = *weight.values_e4m3;
    if activation.dtype != DType::F8E4M3 || values.dtype != DType::F8E4M3 {
        Some(Error::Operands(BF16_EXPECTS, activation.dtype, values.dtype))
    } else if weight.dual_geglu_interleaved {
        Some(Error::Other(BF16_INTERLEAVED))
    } else if !positive_bits(activation_scale) || !positive_bits(weight.scale) {
        Some(Error::Other(BF16_SCALES))
    } else if !conformable(activation.dims@, values.dims@) {
        Some(
            Error::Shapes { text: BF16_SHAPE, left: shape_of(activation.dims@), right: shape_of(values.dims@) },
        )
    } else {
        first_of(
            device_problem(expected, activation.device),
            first_of(
                device_problem(expected, values.device),
                if !native {
                    Some(Error::Other(BF16_NATIVE))
                } else {
                    None
                },
            ),
        )
    }
}

/// Static native E4M3 x E4M3 GEMM with a BF16 output. Callers remain
/// responsible for activation quantization and for applying any BF16 bias.
/// `native` says that the device can multiply E4M3 operands, `value` is that of
/// `APXINF_FP8_BF16_CUBLASLT_TACTICS`.
pub fn gemm_fp8_bf16(
    ctx: &CudaContext,
    activation: &Tensor,
    activation_scale: u32,
    weight: Fp8WeightView<'_>,
    native: bool,
    may_prepare: bool,
    value: &EnvironmentValue,
) -> (result: Result<Fp8Bf16Launch, Error>)
    requires
        fp8_bf16_problem(*ctx, *activation, activation_scale, weight, native) is None
            ==> activation.dims@[0] * weight.values_e4m3.dims@[1] * 2 <= usize::MAX,
    ensures
        result == (match fp8_bf16_problem(*ctx, *activation, activation_scale, weight, native) {
            Some(error) => Err(error),
            None => fp8_bf16_launch(
                *ctx,
                *activation,
                activation_scale,
                weight,
                None,
                may_prepare,
                *value,
            ),
        }),
{
    let values = weight.values_e4m3;
    if activation.dtype != DType::F8E4M3 || values.dtype != DType::F8E4M3 {
        return Err(Error::Operands(BF16_EXPECTS, activation.dtype, values.dtype));
    }
    if weight.dual_geglu_interleaved {
        return Err(Error::Other(BF16_INTERLEAVED));
    }
    if !is_positive(activation_scale) || !is_positive(weight.scale) {
        return Err(Error::Other(BF16_SCALES));
    }
    if activation.dims.len() != 2 || values.dims.len() != 2 || activation.dims[1]
        != values.dims[0] {
        return Err(
            Error::Shapes {
                text: BF16_SHAPE,
                left: Shape::of(activation.dims.as_slice()),
                right: Shape::of(values.dims.as_slice()),
            },
        );
    }
    require_device(ctx, activation.device)?;
    require_device(ctx, values.device)?;
    if !native {
        return Err(Error::Other(BF16_NATIVE));
    }
    plan_fp8_bf16(ctx, activation, activation_scale, weight, None, may_prepare, value)
}

pub const BIAS_EXPECTS: &'static str = "FP8 fused-bias GEMM expects E4M3/E4M3/BF16";

pub const BIAS_INTERLEAVED: &'static str =
    "FP8 fused-bias GEMM cannot consume dual-GeGLU interleaved weights";

pub const BIAS_SCALES: &'static str = "FP8 fused-bias GEMM scales must be finite and positive";

pub const BIAS_SHAPE: &'static str = "FP8 fused-bias GEMM shape mismatch";

pub const BIAS_NATIVE: &'static str =
    "FP8 fused-bias GEMM requires native E4M3 Tensor Core support";

pub open spec fn fp8_bias_problem(
    ctx: CudaContext,
    activation: Tensor,
    activation_scale: u32,
    weight: Fp8WeightView<'_>,
    bias: Tensor,
    native: bool,
) -> Option<Error> {
    let expected = Device::Cuda(ctx.device_id);
    let values = *weight.values_e4m3;
    if activation.dtype != DType::F8E4M3 || values.dtype != DType::F8E4M3 || bias.dtype
        != DType::BF16 {
        Some(Error::BiasOperands(BIAS_EXPECTS, activation.dtype, values.dtype, bias.dtype))
    } else if weight.dual_geglu_interleaved {
        Some(Error::Other(BIAS_INTERLEAVED))
    } else if !positive_bits(activation_scale) || !positive_bits(weight.scale) {
        Some(Error::Other(BIAS_SCALES))
    } else if !conformable(activation.dims@, values.dims@) || !is_vector(
        bias.dims@,
        values.dims@[1],
    ) {
        Some(
            Error::BiasShapes {
                text: BIAS_SHAPE,
                left: shape_of(activation.dims@),
                right: shape_of(values.dims@),
                bias: shape_of(bias.dims@),
            },
        )
    } else {
        first_of(
            device_problem(expected, activation.device),
            first_of(
                device_problem(expected, values.device),
                first_of(
                    device_problem(expected, bias.device),
                    if !native {
                        Some(Error::Other(BIAS_NATIVE))
                    } else {
                        None
                    },
                ),
            ),
        )
    }
}

/// Static native E4M3 x E4M3 GEMM with a fused BF16 per-column bias and a
/// BF16 output. Resource preparation remains outside CUDA Graph capture.
pub fn gemm_fp8_bias_bf16(
    ctx: &CudaContext,
    activation: &Tensor,
    activation_scale: u32,
    weight: Fp8WeightView<'_>,
    bias: &Tensor,
    native: bool,
    may_prepare: bool,
    value: &EnvironmentValue,
) -> (result: Result<Fp8Bf16Launch, Error>)
    requires
        fp8_bias_problem(*ctx, *activation, activation_scale, weight, *bias, native) is None
            ==> activation.dims@[0] * weight.values_e4m3.dims@[1] * 2 <= usize::MAX,
    ensures
        result == (match fp8_bias_problem(
            *ctx,
            *activation,
            activation_scale,
            weight,
            *bias,
            native,
        ) {
            Some(error) => Err(error),
            None => fp8_bf16_launch(
                *ctx,
                *activation,
                activation_scale,
                weight,
                Some(bias.buffer.address),
                may_prepare,
                *value,
            ),
        }),
{
    let values = weight.values_e4m3;
    if activation.dtype != DType::F8E4M3 || values.dtype != DType::F8E4M3 || bias.dtype
        != DType::BF16 {
        return Err(Error::BiasOperands(BIAS_EXPECTS, activation.dtype, values.dtype, bias.dtype));
    }
    if weight.dual_geglu_interleaved {
        return Err(Error::Other(BIAS_INTERLEAVED));
    }
    if !is_positive(activation_scale) || !is_positive(weight.scale) {
        return Err(Error::Other(BIAS_SCALES));
    }
    if activation.dims.len() != 2 || values.dims.len() != 2 || activation.dims[1] != values.dims[0]
        || bias.dims.len() != 1 || bias.dims[0] != values.dims[1] {
        return Err(
            Error::BiasShapes {
                text: BIAS_SHAPE,
                left: Shape::of(activation.dims.as_slice()),
                right: Shape::of(values.dims.as_slice()),
                bias: Shape::of(bias.dims.as_slice()),
            },
        );
    }
    require_device(ctx, activation.device)?;
    require_device(ctx, values.device)?;
    require_device(ctx, bias.device)?;
    if !native {
        return Err(Error::Other(BIAS_NATIVE));
    }
    plan_fp8_bf16(
        ctx,
        activation,
        activation_scale,
        weight,
        Some(bias.buffer.address),
        may_prepare,
        value,
    )
}

} // verus!
