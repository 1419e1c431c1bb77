//! BF16 matrix products.

use super::super::contracts::{
    checked_matrix_bytes, device_problem, first_of, matrix_bytes, require_device, same_dims, unless,
};
use super::geglu::{decomposed, decomposed_geglu_tactic};
use super::plan::{vendor_tactic, PreparedGemmPlan};
use super::providers;
use super::providers::{native_dims, Dims, Preparation, ProviderCall};
use crate::context::CudaContext;
use crate::cublas::{CublasCall, CublasHandle};
use crate::error::{shape_of, Error, Shape};
use crate::tuning::{
    BuildFeatures, CublasLtCustomConfig, DeviceFingerprint, Epilogue, GemmLayout, GemmOp,
    GemmTuningKey, ScaleMode, TacticBackend, TacticCandidate, TacticId, TuningDType,
};
use crate::types::{CudaBuffer, DType, Device, Tensor};
use vstd::prelude::*;

verus! {

/// The bits of the 32-bit float one.
pub const ONE: u32 = 0x3f80_0000;

/// The bits of the 32-bit float zero.
pub const ZERO: u32 = 0;

/// The identity of a BF16 product on a device.
pub open spec fn bf16_key(ctx: CudaContext, m: usize, n: usize, k: usize) -> GemmTuningKey {
    GemmTuningKey {
        op: GemmOp::Bf16,
        device: DeviceFingerprint {
            sm: ctx.caps.sm,
            multiprocessor_count: ctx.caps.multiprocessor_count,
        },
        m,
        n,
        k,
        activation_dtype: TuningDType::Bf16,
        weight_dtype: TuningDType::Bf16,
        output_dtype: TuningDType::Bf16,
        layout: GemmLayout::RowMajor,
        scale_mode: ScaleMode::Unscaled,
        epilogue: Epilogue::Plain,
        workspace_limit: usize::MAX,
    }
}

pub fn tuning_key(ctx: &CudaContext, m: usize, n: usize, k: usize) -> (key: GemmTuningKey)
    ensures
        key == bf16_key(*ctx, m, n, k),
{
    GemmTuningKey {
        op: GemmOp::Bf16,
        device: DeviceFingerprint {
            sm: ctx.caps.sm,
            multiprocessor_count: ctx.caps.multiprocessor_count,
        },
        m,
        n,
        k,
        activation_dtype: TuningDType::Bf16,
        weight_dtype: TuningDType::Bf16,
        output_dtype: TuningDType::Bf16,
        layout: GemmLayout::RowMajor,
        scale_mode: ScaleMode::Unscaled,
        epilogue: Epilogue::Plain,
        workspace_limit: usize::MAX,
    }
}

/// The identity of a BF16 gate/up projection with GeGLU.
pub open spec fn bf16_geglu_key(ctx: CudaContext, m: usize, full_n: usize, k: usize) -> GemmTuningKey {
    GemmTuningKey { epilogue: Epilogue::GeGlu, ..bf16_key(ctx, m, full_n, k) }
}

pub fn geglu_tuning_key(ctx: &CudaContext, m: usize, full_n: usize, k: usize) -> (key: GemmTuningKey)
    ensures
        key == bf16_geglu_key(*ctx, m, full_n, k),
{
    let mut key = tuning_key(ctx, m, full_n, k);
    key.epilogue = Epilogue::GeGlu;
    key
}

/// The native call of one BF16 product.
#[derive(Clone, Copy, Debug, PartialEq, Eq, Structural)]
pub enum Bf16Launch {
    /// The vendor library.
    Vendor(CublasCall),
    /// `apxinf_static_bf16_gemm`, or its split form, with a factor of one.
    Native { split: bool, activation: usize, weight: usize, output: usize, dims: Dims },
}

pub const CANNOT_EXECUTE: &'static str = "BF16 online autotune cannot execute this tactic";

pub open spec fn vendor_launch(
    m: usize,
    n: usize,
    k: usize,
    activation: CudaBuffer,
    weight: CudaBuffer,
    output: CudaBuffer,
) -> Bf16Launch {
    Bf16Launch::Vendor(
        CublasCall::GemmEx(
            crate::cublas::row_major(
                crate::ffi::cublas::cublasOperation_t::CUBLAS_OP_N,
                crate::ffi::cublas::cublasOperation_t::CUBLAS_OP_N,
                m as i32,
                n as i32,
                k as i32,
                crate::cublas::Scalar::Real(ONE),
                crate::cublas::stored(
                    activation,
                    crate::ffi::cublas::cudaDataType_t::CUDA_R_16BF,
                    k as i32,
                ),
                crate::cublas::stored(
                    weight,
                    crate::ffi::cublas::cudaDataType_t::CUDA_R_16BF,
                    n as i32,
                ),
                crate::cublas::Scalar::Real(ZERO),
                crate::cublas::stored(
                    output,
                    crate::ffi::cublas::cudaDataType_t::CUDA_R_16BF,
                    n as i32,
                ),
                crate::ffi::cublas::cublasComputeType_t::CUBLAS_COMPUTE_32F,
                crate::cublas::FIXED_ALGO,
            ),
        ),
    )
}

pub open spec fn native_launch(
    split: bool,
    m: usize,
    n: usize,
    k: usize,
    activation: CudaBuffer,
    weight: CudaBuffer,
    output: CudaBuffer,
) -> Bf16Launch {
    Bf16Launch::Native {
        split,
        activation: activation.address,
        weight: weight.address,
        output: output.address,
        dims: native_dims(m, n, k),
    }
}

/// The call that a tactic makes for a product.
pub open spec fn tactic_launch(
    key: GemmTuningKey,
    activation: CudaBuffer,
    weight: CudaBuffer,
    output: CudaBuffer,
    tactic: TacticId,
) -> Result<Bf16Launch, Error> {
    match tactic.backend {
        TacticBackend::Vendor => Ok(
            vendor_launch(key.m, key.n, key.k, activation, weight, output),
        ),
        TacticBackend::CublasLt | TacticBackend::CublasLtCustom => Ok(
            native_launch(false, key.m, key.n, key.k, activation, weight, output),
        ),
        TacticBackend::CublasLtCustomSplitSerial => Ok(
            native_launch(true, key.m, key.n, key.k, activation, weight, output),
        ),
        _ => Err(Error::Other(CANNOT_EXECUTE)),
    }
}

fn vendor_call(
    cublas: &CublasHandle,
    m: usize,
    n: usize,
    k: usize,
    activation: &CudaBuffer,
    weight: &CudaBuffer,
    output: &CudaBuffer,
) -> (result: Result<Bf16Launch, Error>)
    ensures
        result == Ok::<Bf16Launch, Error>(
            vendor_launch(m, n, k, *activation, *weight, *output),
        ),
{
    let call = cublas.gemm(DType::BF16, m, n, k, ONE, activation, weight, ZERO, output)?;
    Ok(Bf16Launch::Vendor(call))
}

/// The call that runs `tactic`.
pub fn launch_tactic_bf16(
    cublas: &CublasHandle,
    key: &GemmTuningKey,
    activation: &CudaBuffer,
    weight: &CudaBuffer,
    output: &CudaBuffer,
    tactic: TacticId,
) -> (result: Result<Bf16Launch, Error>)
    ensures
        result == tactic_launch(*key, *activation, *weight, *output, tactic),
{
    match tactic.backend {
        TacticBackend::Vendor => vendor_call(
            cublas,
            key.m,
            key.n,
            key.k,
            activation,
            weight,
            output,
        ),
        TacticBackend::CublasLt
        | TacticBackend::CublasLtCustom
        | TacticBackend::CublasLtCustomSplitSerial => Ok(
            Bf16Launch::Native {
                split: tactic.backend == TacticBackend::CublasLtCustomSplitSerial,
                activation: activation.address,
                weight: weight.address,
                output: output.address,
                dims: Dims::new(key.m, key.n, key.k),
            },
        ),
        _ => Err(Error::Other(CANNOT_EXECUTE)),
    }
}

/// What a tuning run of one product measures.
#[derive(Debug)]
pub struct AutotuneRequest {
    /// How many elements of the result are compared with the reference.
    pub elements: usize,
    /// The size of each result buffer.
    pub output_bytes: usize,
    /// The tactic whose result is the reference.
    pub reference: TacticId,
    pub candidates: Vec<TacticCandidate>,
}

pub const AUTOTUNE_OVERFLOW: &'static str = "BF16 autotune output size overflow";

/// Plan a tuning run of `key`.
pub fn autotune_request_bf16(build: &BuildFeatures, key: &GemmTuningKey) -> (result: Result<
    AutotuneRequest,
    Error,
>)
    ensures
        result is Ok <==> key.m * key.n * 2 <= usize::MAX,
        result matches Ok(request) ==> {
            &&& request.elements == key.m * key.n
            &&& request.output_bytes == key.m * key.n * 2
            &&& request.reference == vendor_tactic()
            &&& request.candidates@ == providers::offered(*build, *key, 64).map_values(
                |tactic: TacticId| TacticCandidate { tactic },
            )
        },
        result matches Err(error) ==> error == Error::Other(AUTOTUNE_OVERFLOW),
{
    let output_bytes: usize = checked_matrix_bytes(key.m, key.n, 2, AUTOTUNE_OVERFLOW)?;
    assert(key.m * key.n >= 0) by (nonlinear_arith)
        requires
            key.m >= 0,
            key.n >= 0,
    ;
    let elements: usize = key.m * key.n;
    Ok(
        AutotuneRequest {
            elements,
            output_bytes,
            reference: TacticId { backend: TacticBackend::Vendor, value: 0 },
            candidates: providers::candidates(build, key, 64),
        },
    )
}

pub const INVALID_RANK: &'static str = "invalid BF16 cuBLASLt heuristic rank";

pub const INVALID_CUSTOM: &'static str = "invalid BF16 cuBLASLt custom tactic";

pub const INVALID_SPLIT: &'static str = "invalid BF16 cuBLASLt split-serial custom tactic";

pub open spec fn heuristic_call(m: usize, n: usize, k: usize, rank: i32) -> Result<
    ProviderCall,
    Error,
> {
    if 0 <= rank < 64 {
        Ok(ProviderCall::Bf16Heuristic { dims: native_dims(m, n, k), rank })
    } else {
        Err(Error::Number(INVALID_RANK, rank as i64))
    }
}

pub fn set_cublaslt_gemm_heuristic(m: usize, n: usize, k: usize, heuristic_rank: i32) -> (result:
    Result<ProviderCall, Error>)
    ensures
        result == heuristic_call(m, n, k, heuristic_rank),
{
    if !(0 <= heuristic_rank && heuristic_rank < 64) {
        return Err(Error::Number(INVALID_RANK, heuristic_rank as i64));
    }
    Ok(ProviderCall::Bf16Heuristic { dims: Dims::new(m, n, k), rank: heuristic_rank })
}

pub open spec fn custom_call(
    m: usize,
    n: usize,
    k: usize,
    tactic: i32,
    config: Option<CublasLtCustomConfig>,
) -> Result<ProviderCall, Error> {
    match config {
        Some(config) => Ok(ProviderCall::Bf16Custom { dims: native_dims(m, n, k), config }),
        None => Err(Error::Number(INVALID_CUSTOM, tactic as i64)),
    }
}

/// Configure a custom algorithm; `config` is what `tactic` decodes to.
pub fn set_cublaslt_gemm_custom(
    m: usize,
    n: usize,
    k: usize,
    tactic: i32,
    config: Option<CublasLtCustomConfig>,
) -> (result: Result<ProviderCall, Error>)
    ensures
        result == custom_call(m, n, k, tactic, config),
{
    match config {
        Some(config) => Ok(ProviderCall::Bf16Custom { dims: Dims::new(m, n, k), config }),
        None => Err(Error::Number(INVALID_CUSTOM, tactic as i64)),
    }
}

pub open spec fn split_custom_call(
    m: usize,
    n: usize,
    k: usize,
    tactic: i32,
    config: Option<CublasLtCustomConfig>,
) -> Result<ProviderCall, Error> {
    match config {
        Some(config) => Ok(ProviderCall::Bf16SplitCustom { dims: native_dims(m, n, k), config }),
        None => Err(Error::Number(INVALID_SPLIT, tactic as i64)),
    }
}

/// Configure a custom algorithm of the split product.
pub fn set_cublaslt_gemm_split_custom(
    m: usize,
    n: usize,
    k: usize,
    tactic: i32,
    config: Option<CublasLtCustomConfig>,
) -> (result: Result<ProviderCall, Error>)
    ensures
        result == split_custom_call(m, n, k, tactic, config),
{
    match config {
        Some(config) => Ok(ProviderCall::Bf16SplitCustom { dims: Dims::new(m, n, k), config }),
        None => Err(Error::Number(INVALID_SPLIT, tactic as i64)),
    }
}

pub open spec fn prepare_call(m: usize, n: usize, k: usize, split: bool) -> ProviderCall {
    ProviderCall::Bf16Prepare { dims: native_dims(m, n, k), split }
}

pub fn prepare_cublaslt_gemm(m: usize, n: usize, k: usize, split: bool) -> (call: ProviderCall)
    ensures
        call == prepare_call(m, n, k, split),
{
    ProviderCall::Bf16Prepare { dims: Dims::new(m, n, k), split }
}

/// A product whose operands were accepted.
#[derive(Clone, Copy, Debug, PartialEq, Eq, Structural)]
pub struct GemmRequest {
    pub key: GemmTuningKey,
    pub activation: CudaBuffer,
    pub weight: CudaBuffer,
    pub output_bytes: usize,
    pub rows: usize,
    pub cols: usize,
}

pub const EXPECTS_BF16: &'static str = "gemm_bf16 expects BF16 operands";

pub const SHAPE_MISMATCH: &'static str = "gemm_bf16 shape mismatch";

/// Whether `a @ b` is a product of matrices.
pub open spec fn conformable(a: Seq<usize>, b: Seq<usize>) -> bool {
    a.len() == 2 && b.len() == 2 && a[1] == b[0]
}

pub open spec fn bf16_problem(ctx: CudaContext, activation: Tensor, weight: Tensor) -> Option<Error> {
    let expected = Device::Cuda(ctx.device_id);
    if activation.dtype != DType::BF16 || weight.dtype != DType::BF16 {
        Some(Error::Operands(EXPECTS_BF16, activation.dtype, weight.dtype))
    } else if !conformable(activation.dims@, weight.dims@) {
        Some(
            Error::Shapes { text: SHAPE_MISMATCH, left: shape_of(activation.dims@), right: shape_of(weight.dims@) },
        )
    } else {
        first_of(
            device_problem(expected, activation.device),
            device_problem(expected, weight.device),
        )
    }
}

pub open spec fn bf16_request(ctx: CudaContext, activation: Tensor, weight: Tensor) -> GemmRequest {
    let (m, k, n) = (activation.dims@[0], activation.dims@[1], weight.dims@[1]);
    GemmRequest {
        key: bf16_key(ctx, m, n, k),
        activation: activation.buffer,
        weight: weight.buffer,
        output_bytes: (m * n * 2) as usize,
        rows: m,
        cols: n,
    }
}

/// Physical BF16 GEMM contract: `[M,K] @ [K,N] -> [M,N]`.
pub fn gemm_bf16(ctx: &CudaContext, activation: &Tensor, weight: &Tensor) -> (result: Result<
    GemmRequest,
    Error,
>)
    requires
        bf16_problem(*ctx, *activation, *weight) is None ==> activation.dims@[0] * weight.dims@[1]
            * 2 <= usize::MAX,
    ensures
        result == unless(
            bf16_problem(*ctx, *activation, *weight),
            bf16_request(*ctx, *activation, *weight),
        ),
{
    if activation.dtype != DType::BF16 || weight.dtype != DType::BF16 {
        return Err(Error::Operands(EXPECTS_BF16, activation.dtype, weight.dtype));
    }
    if activation.dims.len() != 2 || weight.dims.len() != 2 || activation.dims[1]
        != weight.dims[0] {
        return Err(
            Error::Shapes {
                text: SHAPE_MISMATCH,
                left: Shape::of(activation.dims.as_slice()),
                right: Shape::of(weight.dims.as_slice()),
            },
        );
    }
    require_device(ctx, activation.device)?;
    require_device(ctx, weight.device)?;
    let m: usize = activation.dims[0];
    let k: usize = activation.dims[1];
    let n: usize = weight.dims[1];
    proof {
        assert(m * n <= m * n * 2) by (nonlinear_arith);
    }
    Ok(
        GemmRequest {
            key: tuning_key(ctx, m, n, k),
            activation: activation.buffer,
            weight: weight.buffer,
            output_bytes: m * n * 2,
            rows: m,
            cols: n,
        },
    )
}

/// How far a product has come after its tactic was resolved.
#[derive(Clone, Copy, Debug, PartialEq, Eq, Structural)]
pub enum GemmStage {
    /// Launch the resolved cuBLASLt tactic.
    Tuned { split: bool },
    /// Install the vendor plan in place of the tactic that failed.
    Fallback,
    /// Launch the vendor route.
    Vendor,
    Done,
    /// The last call's error is the result.
    Failed,
}

/// Only cuBLASLt tactics have a launch of their own.
pub open spec fn first_stage(tactic: TacticId) -> GemmStage {
    match tactic.backend {
        TacticBackend::CublasLt | TacticBackend::CublasLtCustom => GemmStage::Tuned {
            split: false,
        },
        TacticBackend::CublasLtCustomSplitSerial => GemmStage::Tuned { split: true },
        _ => GemmStage::Vendor,
    }
}

pub fn gemm_bf16_start(tactic: TacticId) -> (stage: GemmStage)
    ensures
        stage == first_stage(tactic),
{
    match tactic.backend {
        TacticBackend::CublasLt | TacticBackend::CublasLtCustom => GemmStage::Tuned {
            split: false,
        },
        TacticBackend::CublasLtCustomSplitSerial => GemmStage::Tuned { split: true },
        _ => GemmStage::Vendor,
    }
}

/// The launch of a stage that has one.
pub fn gemm_bf16_launch(
    cublas: &CublasHandle,
    request: &GemmRequest,
    stage: GemmStage,
    output: &CudaBuffer,
) -> (launch: Option<Bf16Launch>)
    ensures
        launch == (match stage {
            GemmStage::Tuned { split } => Some(
                native_launch(
                    split,
                    request.key.m,
                    request.key.n,
                    request.key.k,
                    request.activation,
                    request.weight,
                    *output,
                ),
            ),
            GemmStage::Vendor => Some(
                vendor_launch(
                    request.key.m,
                    request.key.n,
                    request.key.k,
                    request.activation,
                    request.weight,
                    *output,
                ),
            ),
            _ => None,
        }),
{
    match stage {
        GemmStage::Tuned { split } => Some(
            Bf16Launch::Native {
                split,
                activation: request.activation.address,
                weight: request.weight.address,
                output: output.address,
                dims: Dims::new(request.key.m, request.key.n, request.key.k),
            },
        ),
        GemmStage::Vendor => {
            match vendor_call(
                cublas,
                request.key.m,
                request.key.n,
                request.key.k,
                &request.activation,
                &request.weight,
                output,
            ) {
                Ok(launch) => Some(launch),
                Err(_) => None,
            }
        },
        _ => None,
    }
}

pub open spec fn bf16_next(stage: GemmStage, succeeded: bool) -> GemmStage {
    match stage {
        GemmStage::Tuned { .. } => if succeeded {
            GemmStage::Done
        } else {
            GemmStage::Fallback
        },
        GemmStage::Fallback => if succeeded {
            GemmStage::Vendor
        } else {
            GemmStage::Failed
        },
        GemmStage::Vendor => if succeeded {
            GemmStage::Done
        } else {
            GemmStage::Failed
        },
        GemmStage::Done | GemmStage::Failed => stage,
    }
}

/// The stage after a call succeeded or failed. A tuned tactic that fails gives
/// way to the vendor route; a failure there is final.
pub fn gemm_bf16_advance(stage: GemmStage, succeeded: bool) -> (next: GemmStage)
    ensures
        next == bf16_next(stage, succeeded),
{
    match stage {
        GemmStage::Tuned { .. } => if succeeded {
            GemmStage::Done
        } else {
            GemmStage::Fallback
        },
        GemmStage::Fallback => if succeeded {
            GemmStage::Vendor
        } else {
            GemmStage::Failed
        },
        GemmStage::Vendor => if succeeded {
            GemmStage::Done
        } else {
            GemmStage::Failed
        },
        GemmStage::Done | GemmStage::Failed => stage,
    }
}

/// Whatever the tactic and whatever fails, a product ends after three calls,
/// and it is done whenever the vendor route works.
pub proof fn lemma_gemm_bf16_ends(tactic: TacticId, tuned: bool, fallback: bool, vendor: bool)
    ensures
        ({
            let first = bf16_next(first_stage(tactic), if first_stage(tactic) is Tuned {
                tuned
            } else {
                vendor
            });
            let last = bf16_next(bf16_next(first, fallback), vendor);
            &&& last == GemmStage::Done || last == GemmStage::Failed
            &&& vendor && fallback ==> last == GemmStage::Done
        }),
{
}

/// A gate/up projection whose operands were accepted.
#[derive(Clone, Copy, Debug, PartialEq, Eq, Structural)]
pub struct GegluRequest {
    /// The whole operator.
    pub key: GemmTuningKey,
    /// The product alone.
    pub plain_key: GemmTuningKey,
    pub activation: CudaBuffer,
    /// The weight in plain layout, where there is one.
    pub plain_weight: Option<CudaBuffer>,
    /// The weight in the dual-GEMM layout, where there is one.
    pub dual_weight: Option<CudaBuffer>,
    /// The weight in the SM89 layout, where there is one.
    pub sm89_weight: Option<CudaBuffer>,
    pub rows: usize,
    pub cols: usize,
}

pub const GEGLU_EXPECTS: &'static str = "BF16 fused GeGLU expects BF16 operands";

pub const GEGLU_SHAPE: &'static str = "BF16 fused GeGLU shape mismatch";

pub const AUTO_WEIGHT: &'static str = "BF16 dual GeGLU auto-interleaved weight";

pub const SM89_WEIGHT: &'static str = "BF16 SM89 GeGLU interleaved weight";

pub const WEIGHT_MISMATCH: &'static str =
    "must have the type, the shape and the device of the packed weight";

/// What is wrong with a second copy of a packed weight.
pub open spec fn weight_copy_problem(
    name: &'static str,
    weight: Option<&Tensor>,
    dtype: DType,
    dims: Seq<usize>,
    expected: Device,
) -> Option<Error> {
    match weight {
        Some(weight) => if weight.dtype != dtype || weight.dims@ != dims || weight.device
            != expected {
            Some(Error::Operation { operation: name, problem: WEIGHT_MISMATCH })
        } else {
            None
        },
        None => None,
    }
}

/// Check a second copy of a packed weight.
pub fn validate_geglu_weight(
    ctx: &CudaContext,
    name: &'static str,
    weight: Option<&Tensor>,
    dtype: DType,
    dims: &Vec<usize>,
) -> (result: Result<(), Error>)
    ensures
        result == unless(
            weight_copy_problem(name, weight, dtype, dims@, Device::Cuda(ctx.device_id)),
            (),
        ),
{
    match weight {
        Some(weight) => if weight.dtype != dtype || !same_dims(&weight.dims, dims) || weight.device
            != Device::Cuda(ctx.device_id) {
            Err(Error::Operation { operation: name, problem: WEIGHT_MISMATCH })
        } else {
            Ok(())
        },
        None => Ok(()),
    }
}

pub open spec fn geglu_problem(
    ctx: CudaContext,
    activation: Tensor,
    packed_weight: Tensor,
    automatic: Option<&Tensor>,
    sm89: Option<&Tensor>,
) -> Option<Error> {
    let expected = Device::Cuda(ctx.device_id);
    let a = activation.dims@;
    let b = packed_weight.dims@;
    if activation.dtype != DType::BF16 || packed_weight.dtype != DType::BF16 {
        Some(Error::Operands(GEGLU_EXPECTS, activation.dtype, packed_weight.dtype))
    } else if !conformable(a, b) || b[1] % 2 != 0 {
        Some(
            Error::Shapes { text: GEGLU_SHAPE, left: shape_of(a), right: shape_of(b) },
        )
    } else {
        first_of(
            device_problem(expected, activation.device),
            first_of(
                device_problem(expected, packed_weight.device),
                first_of(
                    weight_copy_problem(AUTO_WEIGHT, automatic, DType::BF16, b, expected),
                    weight_copy_problem(SM89_WEIGHT, sm89, DType::BF16, b, expected),
                ),
            ),
        )
    }
}

pub open spec fn storage(tensor: Option<&Tensor>) -> Option<CudaBuffer> {
    match tensor {
        Some(tensor) => Some(tensor.buffer),
        None => None,
    }
}

/// The accepted operands: a packed weight that is interleaved itself has no
/// plain layout, and otherwise the interleaved copy is used where it exists.
pub open spec fn geglu_request(
    ctx: CudaContext,
    activation: Tensor,
    packed_weight: Tensor,
    interleaved: bool,
    automatic: Option<&Tensor>,
    sm89: Option<&Tensor>,
) -> GegluRequest {
    let (m, k, full_n) = (activation.dims@[0], activation.dims@[1], packed_weight.dims@[1]);
    GegluRequest {
        key: bf16_geglu_key(ctx, m, full_n, k),
        plain_key: bf16_key(ctx, m, full_n, k),
        activation: activation.buffer,
        plain_weight: if interleaved {
            None
        } else {
            Some(packed_weight.buffer)
        },
        dual_weight: if interleaved {
            Some(packed_weight.buffer)
        } else {
            storage(automatic)
        },
        sm89_weight: storage(sm89),
        rows: m,
        cols: full_n / 2,
    }
}

pub fn storage_of(tensor: Option<&Tensor>) -> (result: Option<CudaBuffer>)
    ensures
        result == storage(tensor),
{
    match tensor {
        Some(tensor) => Some(tensor.buffer),
        None => None,
    }
}

/// Accept the operands of the complete BF16 gate/up projection plus GeGLU.
/// The run that follows is that of `geglu::GegluRun`.
pub fn gemm_bf16_geglu_fused(
    ctx: &CudaContext,
    activation: &Tensor,
    packed_weight: &Tensor,
    bf16_dual_geglu_interleaved: bool,
    bf16_dual_geglu_auto_interleaved: Option<&Tensor>,
    bf16_sm89_geglu_interleaved: Option<&Tensor>,
) -> (result: Result<GegluRequest, Error>)
    ensures
        result == unless(
            geglu_problem(
                *ctx,
                *activation,
                *packed_weight,
                bf16_dual_geglu_auto_interleaved,
                bf16_sm89_geglu_interleaved,
            ),
            geglu_request(
                *ctx,
                *activation,
                *packed_weight,
                bf16_dual_geglu_interleaved,
                bf16_dual_geglu_auto_interleaved,
                bf16_sm89_geglu_interleaved,
            ),
        ),
{
    if activation.dtype != DType::BF16 || packed_weight.dtype != DType::BF16 {
        return Err(Error::Operands(GEGLU_EXPECTS, activation.dtype, packed_weight.dtype));
    }
    if activation.dims.len() != 2 || packed_weight.dims.len() != 2 || activation.dims[1]
        != packed_weight.dims[0] || packed_weight.dims[1] % 2 != 0 {
        return Err(
            Error::Shapes {
                text: GEGLU_SHAPE,
                left: Shape::of(activation.dims.as_slice()),
                right: Shape::of(packed_weight.dims.as_slice()),
            },
        );
    }
    require_device(ctx, activation.device)?;
    require_device(ctx, packed_weight.device)?;
    validate_geglu_weight(
        ctx,
        AUTO_WEIGHT,
        bf16_dual_geglu_auto_interleaved,
        DType::BF16,
        &packed_weight.dims,
    )?;
    validate_geglu_weight(
        ctx,
        SM89_WEIGHT,
        bf16_sm89_geglu_interleaved,
        DType::BF16,
        &packed_weight.dims,
    )?;
    let m: usize = activation.dims[0];
    let k: usize = activation.dims[1];
    let full_n: usize = packed_weight.dims[1];
    let automatic = storage_of(bf16_dual_geglu_auto_interleaved);
    Ok(
        GegluRequest {
            key: geglu_tuning_key(ctx, m, full_n, k),
            plain_key: tuning_key(ctx, m, full_n, k),
            activation: activation.buffer,
            plain_weight: if bf16_dual_geglu_interleaved {
                None
            } else {
                Some(packed_weight.buffer)
            },
            dual_weight: if bf16_dual_geglu_interleaved {
                Some(packed_weight.buffer)
            } else {
                automatic
            },
            sm89_weight: storage_of(bf16_sm89_geglu_interleaved),
            rows: m,
            cols: full_n / 2,
        },
    )
}

/// Tactics that write the packed gate/up product before the activation.
pub open spec fn bf16_uses_gate(tactic: TacticId) -> bool {
    tactic.backend == TacticBackend::GemmThenGeGlu || tactic.backend
        == TacticBackend::CublasLtCustomSplitGeGluCutlassBf16
}

pub fn bf16_geglu_tactic_uses_gate(tactic: TacticId) -> (result: bool)
    ensures
        result == bf16_uses_gate(tactic),
{
    match tactic.backend {
        TacticBackend::GemmThenGeGlu | TacticBackend::CublasLtCustomSplitGeGluCutlassBf16 => true,
        _ => false,
    }
}

/// The size of a gate buffer.
pub fn bf16_geglu_gate_bytes(m: usize, full_n: usize) -> (result: Result<usize, Error>)
    ensures
        result == matrix_bytes(m, full_n, 2, "BF16 GeGLU gate size overflow"),
{
    checked_matrix_bytes(m, full_n, 2, "BF16 GeGLU gate size overflow")
}

/// The size of the result.
pub fn bf16_geglu_output_bytes(m: usize, n: usize) -> (result: Result<usize, Error>)
    ensures
        result == matrix_bytes(m, n, 2, "BF16 GeGLU output size overflow"),
{
    checked_matrix_bytes(m, n, 2, "BF16 GeGLU output size overflow")
}

pub const NO_DUAL: &'static str = "BF16 interleaved-only GeGLU has no implementation for this key";

pub const NO_SAFE: &'static str = "BF16 GeGLU has no safe implementation for this key";

/// The tactic of a shape that was never tuned: two kernels where there is a
/// plain weight, else what the device can do with an interleaved one.
pub open spec fn bf16_geglu_default(
    sm: u32,
    m: usize,
    plain: bool,
    dual: bool,
    sm89: bool,
) -> Result<TacticId, Error> {
    if plain {
        Ok(decomposed())
    } else if sm == 110 && dual {
        if m == 522 {
            Ok(TacticId { backend: TacticBackend::CutlassBf16DualGeGluM522, value: 0 })
        } else if m == 533 {
            Ok(TacticId { backend: TacticBackend::CutlassBf16DualGeGluM533, value: 0 })
        } else {
            Err(Error::Other(NO_DUAL))
        }
    } else if sm == 89 && sm89 {
        Ok(TacticId { backend: TacticBackend::CutlassBf16GeGluSm89, value: 0 })
    } else {
        Err(Error::Other(NO_SAFE))
    }
}

pub fn default_bf16_geglu_tactic(
    ctx: &CudaContext,
    key: &GemmTuningKey,
    has_plain_weight: bool,
    has_dual_weight: bool,
    has_sm89_weight: bool,
) -> (result: Result<TacticId, Error>)
    ensures
        result == bf16_geglu_default(
            ctx.caps.sm,
            key.m,
            has_plain_weight,
            has_dual_weight,
            has_sm89_weight,
        ),
{
    if has_plain_weight {
        return Ok(decomposed_geglu_tactic());
    }
    if ctx.caps.sm == 110 && has_dual_weight {
        let backend = if key.m == 522 {
            TacticBackend::CutlassBf16DualGeGluM522
        } else if key.m == 533 {
            TacticBackend::CutlassBf16DualGeGluM533
        } else {
            return Err(Error::Other(NO_DUAL));
        };
        return Ok(TacticId { backend, value: 0 });
    }
    if ctx.caps.sm == 89 && has_sm89_weight {
        return Ok(TacticId { backend: TacticBackend::CutlassBf16GeGluSm89, value: 0 });
    }
    Err(Error::Other(NO_SAFE))
}

pub const NO_PLAIN_PLAN: &'static str = "decomposed BF16 GeGLU has no plain-weight GEMM plan";

/// What installs a GeGLU tactic: for two kernels, what installs the product.
pub open spec fn geglu_preparation(
    build: BuildFeatures,
    key: GemmTuningKey,
    plain_key: GemmTuningKey,
    plain_plan: Option<PreparedGemmPlan>,
    tactic: TacticId,
    config: Option<CublasLtCustomConfig>,
    no_plan: &'static str,
) -> Result<Preparation, Error> {
    if tactic.backend == TacticBackend::GemmThenGeGlu {
        match plain_plan {
            Some(plan) => providers::preparation(build, plain_key, plan.tactic, config),
            None => Err(Error::Other(no_plan)),
        }
    } else {
        providers::preparation(build, key, tactic, config)
    }
}

pub fn prepare_bf16_geglu_tactic(
    build: &BuildFeatures,
    key: &GemmTuningKey,
    plain_key: &GemmTuningKey,
    plain_plan: Option<PreparedGemmPlan>,
    tactic: TacticId,
    config: Option<CublasLtCustomConfig>,
) -> (result: Result<Preparation, Error>)
    ensures
        result == geglu_preparation(
            *build,
            *key,
            *plain_key,
            plain_plan,
            tactic,
            config,
            NO_PLAIN_PLAN,
        ),
{
    if tactic.backend == TacticBackend::GemmThenGeGlu {
        return match plain_plan {
            Some(plan) => providers::prepare(build, plain_key, plan.tactic, config),
            None => Err(Error::Other(NO_PLAIN_PLAN)),
        };
    }
    providers::prepare(build, key, tactic, config)
}

/// A default tactic can be installed for its key. A dual kernel exists for one
/// width and depth, and the SM89 kernel in builds that carry it.
pub proof fn lemma_bf16_geglu_default_is_prepared(
    build: BuildFeatures,
    sm: u32,
    key: GemmTuningKey,
    plain: bool,
    dual: bool,
    sm89: bool,
    config: Option<CublasLtCustomConfig>,
)
    requires
        key.op == GemmOp::Bf16,
        key.epilogue == Epilogue::GeGlu,
        bf16_geglu_default(sm, key.m, plain, dual, sm89) is Ok,
        !plain && sm == 110 ==> key.n == 32768 && key.k == 2048,
        !plain && sm == 89 ==> build.cutlass_bf16_sm89,
    ensures
        providers::preparation(
            build,
            key,
            bf16_geglu_default(sm, key.m, plain, dual, sm89).unwrap(),
            config,
        ) == Ok::<Preparation, Error>(providers::no_calls()),
{
}

/// The native calls of one GeGLU tactic, in order.
#[derive(Clone, Copy, Debug, PartialEq, Eq, Structural)]
pub enum Bf16GegluLaunch {
    /// The product, then `apxinf_static_geglu_bf16`.
    Decomposed { gemm: Bf16Launch, gate: usize, output: usize, m: i32, n: i32 },
    /// `apxinf_static_cutlass_bf16_dual_gemm_geglu`.
    Dual { activation: usize, weight: usize, output: usize, dims: Dims, full_n: i32 },
    /// `apxinf_static_cutlass_bf16_interleaved_geglu_sm89`.
    Sm89 {
        activation: usize,
        weight: usize,
        output: usize,
        dims: Dims,
        full_n: i32,
        tactic: i32,
    },
    /// `apxinf_static_bf16_gemm_split_first` into a gate buffer, then
    /// `apxinf_static_cutlass_bf16_gemm_geglu`.
    Split {
        activation: usize,
        weight: usize,
        gate: usize,
        output: usize,
        first: Dims,
        dims: Dims,
        full_n: i32,
    },
}

pub const NO_GATE: &'static str = "decomposed BF16 GeGLU has no gate buffer";

pub const NO_PREPARED_PLAN: &'static str = "decomposed BF16 GeGLU has no prepared GEMM plan";

pub const NO_PLAIN_WEIGHT: &'static str = "decomposed BF16 GeGLU has no plain-layout weight";

pub const NO_DUAL_WEIGHT: &'static str = "BF16 dual-GEMM GeGLU has no interleaved weight";

pub const NO_DUAL_BUILD: &'static str = "BF16 dual GeGLU requires the SM100-family CUTLASS build";

pub const NO_SM89_WEIGHT: &'static str = "BF16 SM89 GeGLU has no interleaved weight";

pub const NO_SM89_BUILD: &'static str = "BF16 SM89 GeGLU requires the SM89 CUTLASS build";

pub const NO_SPLIT_GATE: &'static str = "split BF16 GeGLU has no gate buffer";

pub const NO_SPLIT_WEIGHT: &'static str = "split BF16 GeGLU has no plain-layout weight";

pub const SPLIT_SHAPE: &'static str =
    "split BF16 GeGLU tactic requires [789,2048] @ [2048,32768]";

pub const NO_SPLIT_BUILD: &'static str = "split BF16 GeGLU requires the SM100-family CUTLASS build";

pub const GEGLU_CANNOT: &'static str = "BF16 GeGLU online autotune cannot execute this tactic";

pub const DUAL_SHAPE: &'static str = "BF16 dual GeGLU backend requires an exact shape";

/// The calls that a GeGLU tactic makes, or what it lacks.
pub open spec fn geglu_launch(
    build: BuildFeatures,
    key: GemmTuningKey,
    plain_plan: Option<PreparedGemmPlan>,
    activation: CudaBuffer,
    plain_weight: Option<CudaBuffer>,
    dual_weight: Option<CudaBuffer>,
    sm89_weight: Option<CudaBuffer>,
    gate: Option<CudaBuffer>,
    output: CudaBuffer,
    tactic: TacticId,
) -> Result<Bf16GegluLaunch, Error> {
    let n = key.n / 2;
    match tactic.backend {
        TacticBackend::GemmThenGeGlu => match (gate, plain_plan, plain_weight) {
            (None, _, _) => Err(Error::Other(NO_GATE)),
            (_, None, _) => Err(Error::Other(NO_PREPARED_PLAN)),
            (_, _, None) => Err(Error::Other(NO_PLAIN_WEIGHT)),
            (Some(gate), Some(plan), Some(weight)) => match tactic_launch(
                plan.key,
                activation,
                weight,
                gate,
                plan.tactic,
            ) {
                Ok(gemm) => Ok(
                    Bf16GegluLaunch::Decomposed {
                        gemm,
                        gate: gate.address,
                        output: output.address,
                        m: key.m as i32,
                        n: n as i32,
                    },
                ),
                Err(error) => Err(error),
            },
        },
        TacticBackend::CutlassBf16DualGeGluM522 | TacticBackend::CutlassBf16DualGeGluM533 => {
            let expected: usize = if tactic.backend == TacticBackend::CutlassBf16DualGeGluM522 {
                522
            } else {
                533
            };
            if key.m != expected || key.n != 32768 || key.k != 2048 {
                Err(Error::Number(DUAL_SHAPE, expected as i64))
            } else {
                match dual_weight {
                    None => Err(Error::Other(NO_DUAL_WEIGHT)),
                    Some(weight) => if build.cutlass_gemm {
                        Ok(
                            Bf16GegluLaunch::Dual {
                                activation: activation.address,
                                weight: weight.address,
                                output: output.address,
                                dims: native_dims(key.m, n, key.k),
                                full_n: key.n as i32,
                            },
                        )
                    } else {
                        Err(Error::Other(NO_DUAL_BUILD))
                    },
                }
            }
        },
        TacticBackend::CutlassBf16GeGluSm89 => match sm89_weight {
            None => Err(Error::Other(NO_SM89_WEIGHT)),
            Some(weight) => if build.cutlass_bf16_sm89 {
                Ok(
                    Bf16GegluLaunch::Sm89 {
                        activation: activation.address,
                        weight: weight.address,
                        output: output.address,
                        dims: native_dims(key.m, n, key.k),
                        full_n: key.n as i32,
                        tactic: tactic.value,
                    },
                )
            } else {
                Err(Error::Other(NO_SM89_BUILD))
            },
        },
        TacticBackend::CublasLtCustomSplitGeGluCutlassBf16 => match (gate, plain_weight) {
            (None, _) => Err(Error::Other(NO_SPLIT_GATE)),
            (_, None) => Err(Error::Other(NO_SPLIT_WEIGHT)),
            (Some(gate), Some(weight)) => if key.m != 789 || key.n != 32768 || key.k != 2048 {
                Err(Error::Other(SPLIT_SHAPE))
            } else if build.cutlass_gemm {
                Ok(
                    Bf16GegluLaunch::Split {
                        activation: activation.address,
                        weight: weight.address,
                        gate: gate.address,
                        output: output.address,
                        first: native_dims(key.m, key.n, key.k),
                        dims: native_dims(key.m, n, key.k),
                        full_n: key.n as i32,
                    },
                )
            } else {
                Err(Error::Other(NO_SPLIT_BUILD))
            },
        },
        _ => Err(Error::Other(GEGLU_CANNOT)),
    }
}

/// The calls that run a GeGLU tactic.
pub fn launch_bf16_geglu_tactic(
    build: &BuildFeatures,
    cublas: &CublasHandle,
    key: &GemmTuningKey,
    plain_plan: Option<PreparedGemmPlan>,
    activation: &CudaBuffer,
    plain_weight: Option<CudaBuffer>,
    dual_weight: Option<CudaBuffer>,
    sm89_weight: Option<CudaBuffer>,
    gate: Option<CudaBuffer>,
    output: &CudaBuffer,
    tactic: TacticId,
) -> (result: Result<Bf16GegluLaunch, Error>)
    ensures
        result == geglu_launch(
            *build,
            *key,
            plain_plan,
            *activation,
            plain_weight,
            dual_weight,
            sm89_weight,
            gate,
            *output,
            tactic,
        ),
{
    let n: usize = key.n / 2;
    match tactic.backend {
        TacticBackend::GemmThenGeGlu => {
            let gate = match gate {
                Some(gate) => gate,
                None => {
                    return Err(Error::Other(NO_GATE));
                },
            };
            let plan = match plain_plan {
                Some(plan) => plan,
                None => {
                    return Err(Error::Other(NO_PREPARED_PLAN));
                },
            };
            let weight = match plain_weight {
                Some(weight) => weight,
                None => {
                    return Err(Error::Other(NO_PLAIN_WEIGHT));
                },
            };
            let gemm = launch_tactic_bf16(
                cublas,
                &plan.key,
                activation,
                &weight,
                &gate,
                plan.tactic,
            )?;
            Ok(
                Bf16GegluLaunch::Decomposed {
                    gemm,
                    gate: gate.address,
                    output: output.address,
                    m: key.m as i32,
                    n: n as i32,
                },
            )
        },
        TacticBackend::CutlassBf16DualGeGluM522 | TacticBackend::CutlassBf16DualGeGluM533 => {
            let expected_m: usize = if tactic.backend == TacticBackend::CutlassBf16DualGeGluM522 {
                522
            } else {
                533
            };
            validate_bf16_dual_geglu_shape(key.m, key.n, key.k, expected_m)?;
            let weight = match dual_weight {
                Some(weight) => weight,
                None => {
                    return Err(Error::Other(NO_DUAL_WEIGHT));
                },
            };
            if !build.cutlass_gemm {
                return Err(Error::Other(NO_DUAL_BUILD));
            }
            Ok(
                Bf16GegluLaunch::Dual {
                    activation: activation.address,
                    weight: weight.address,
                    output: output.address,
                    dims: Dims::new(key.m, n, key.k),
                    full_n: key.n as i32,
                },
            )
        },
        TacticBackend::CutlassBf16GeGluSm89 => {
            let weight = match sm89_weight {
                Some(weight) => weight,
                None => {
                    return Err(Error::Other(NO_SM89_WEIGHT));
                },
            };
            if !build.cutlass_bf16_sm89 {
                return Err(Error::Other(NO_SM89_BUILD));
            }
            Ok(
                Bf16GegluLaunch::Sm89 {
                    activation: activation.address,
                    weight: weight.address,
                    output: output.address,
                    dims: Dims::new(key.m, n, key.k),
                    full_n: key.n as i32,
                    tactic: tactic.value,
                },
            )
        },
        TacticBackend::CublasLtCustomSplitGeGluCutlassBf16 => {
            let gate = match gate {
                Some(gate) => gate,
                None => {
                    return Err(Error::Other(NO_SPLIT_GATE));
                },
            };
            let weight = match plain_weight {
                Some(weight) => weight,
                None => {
                    return Err(Error::Other(NO_SPLIT_WEIGHT));
                },
            };
            if key.m != 789 || key.n != 32768 || key.k != 2048 {
                return Err(Error::Other(SPLIT_SHAPE));
            }
            if !build.cutlass_gemm {
                return Err(Error::Other(NO_SPLIT_BUILD));
            }
            Ok(
                Bf16GegluLaunch::Split {
                    activation: activation.address,
                    weight: weight.address,
                    gate: gate.address,
                    output: output.address,
                    first: Dims::new(key.m, key.n, key.k),
                    dims: Dims::new(key.m, n, key.k),
                    full_n: key.n as i32,
                },
            )
        },
        _ => Err(Error::Other(GEGLU_CANNOT)),
    }
}

/// A decomposed launch that has its gate, its plan and its weight is refused
/// for nothing but the plan's own tactic.
pub proof fn lemma_decomposed_launch_is_complete(
    build: BuildFeatures,
    key: GemmTuningKey,
    plan: PreparedGemmPlan,
    activation: CudaBuffer,
    weight: CudaBuffer,
    gate: CudaBuffer,
    output: CudaBuffer,
)
    ensures
        geglu_launch(
            build,
            key,
            Some(plan),
            activation,
            Some(weight),
            None,
            None,
            Some(gate),
            output,
            decomposed(),
        ) is Ok <==> tactic_launch(plan.key, activation, weight, gate, plan.tactic) is Ok,
{
}

/// Whether a product reads the weight at `address`. The vendor library takes
/// it as its first operand, being asked for the transposed product.
pub open spec fn reads_weight(launch: Bf16Launch, address: usize) -> bool {
    match launch {
        Bf16Launch::Vendor(CublasCall::GemmEx(call)) => call.a.address == address,
        Bf16Launch::Vendor(_) => false,
        Bf16Launch::Native { weight, .. } => weight == address,
    }
}

/// Each fused kernel reads the weight in its own layout, and every other route
/// reads the plain one.
pub proof fn lemma_routes_read_their_layout(
    build: BuildFeatures,
    key: GemmTuningKey,
    plain_plan: Option<PreparedGemmPlan>,
    activation: CudaBuffer,
    plain_weight: Option<CudaBuffer>,
    dual_weight: Option<CudaBuffer>,
    sm89_weight: Option<CudaBuffer>,
    gate: Option<CudaBuffer>,
    output: CudaBuffer,
    tactic: TacticId,
)
    ensures
        match geglu_launch(
            build,
            key,
            plain_plan,
            activation,
            plain_weight,
            dual_weight,
            sm89_weight,
            gate,
            output,
            tactic,
        ) {
            Ok(Bf16GegluLaunch::Decomposed { gemm, .. }) => plain_weight matches Some(plain)
                && reads_weight(gemm, plain.address),
            Ok(Bf16GegluLaunch::Split { weight, .. }) => plain_weight matches Some(plain) && weight
                == plain.address,
            Ok(Bf16GegluLaunch::Dual { weight, .. }) => dual_weight matches Some(dual) && weight
                == dual.address,
            Ok(Bf16GegluLaunch::Sm89 { weight, .. }) => sm89_weight matches Some(sm89) && weight
                == sm89.address,
            Err(_) => true,
        },
{
}

/// What a tuning run of a GeGLU measures.
#[derive(Debug)]
pub struct GegluAutotune {
    pub elements: usize,
    pub output_bytes: usize,
    pub gate_bytes: usize,
    pub reference: TacticId,
    pub candidates: Vec<TacticId>,
}

/// Whether the operands at hand let a candidate run.
pub open spec fn bf16_runnable(tactic: TacticId, plain: bool, dual: bool, sm89: bool) -> bool {
    match tactic.backend {
        TacticBackend::GemmThenGeGlu => plain,
        TacticBackend::CutlassBf16DualGeGluM522 | TacticBackend::CutlassBf16DualGeGluM533 => dual,
        TacticBackend::CutlassBf16GeGluSm89 => sm89,
        _ => true,
    }
}

fn runnable(tactic: TacticId, plain: bool, dual: bool, sm89: bool) -> (result: bool)
    ensures
        result == bf16_runnable(tactic, plain, dual, sm89),
{
    match tactic.backend {
        TacticBackend::GemmThenGeGlu => plain,
        TacticBackend::CutlassBf16DualGeGluM522 | TacticBackend::CutlassBf16DualGeGluM533 => dual,
        TacticBackend::CutlassBf16GeGluSm89 => sm89,
        _ => true,
    }
}

pub const GEGLU_OUTPUT_OVERFLOW: &'static str = "BF16 GeGLU autotune output size overflow";

pub const GEGLU_GATE_OVERFLOW: &'static str = "BF16 GeGLU autotune gate size overflow";

/// What is wrong with a tuning run of a GeGLU, and its reference tactic.
pub open spec fn geglu_autotune_reference(
    ctx: CudaContext,
    key: GemmTuningKey,
    plain: bool,
    dual: bool,
    sm89: bool,
) -> Result<TacticId, Error> {
    if key.m * (key.n / 2) > usize::MAX {
        Err(Error::Other(GEGLU_OUTPUT_OVERFLOW))
    } else if key.m * key.n * 2 > usize::MAX {
        Err(Error::Other(GEGLU_GATE_OVERFLOW))
    } else {
        bf16_geglu_default(ctx.caps.sm, key.m, plain, dual, sm89)
    }
}

/// Plan a tuning run of a GeGLU over those of the `offered` tactics that the
/// operands at hand let run.
pub fn autotune_request_bf16_geglu(
    ctx: &CudaContext,
    key: &GemmTuningKey,
    plain: bool,
    dual: bool,
    sm89: bool,
    offered: &Vec<TacticId>,
) -> (result: Result<GegluAutotune, Error>)
    ensures
        match geglu_autotune_reference(*ctx, *key, plain, dual, sm89) {
            Err(error) => result == Err::<GegluAutotune, Error>(error),
            Ok(reference) => result matches Ok(request) && {
                &&& request.elements == key.m * (key.n / 2)
                &&& request.output_bytes == key.m * (key.n / 2) * 2
                &&& request.gate_bytes == key.m * key.n * 2
                &&& request.reference == reference
                &&& request.candidates@ == offered@.filter(
                    |tactic: TacticId| bf16_runnable(tactic, plain, dual, sm89),
                )
            },
        },
{
    let half: usize = key.n / 2;
    let elements: usize = match key.m.checked_mul(half) {
        Some(elements) => elements,
        None => {
            return Err(Error::Other(GEGLU_OUTPUT_OVERFLOW));
        },
    };
    let gate_bytes: usize = checked_matrix_bytes(key.m, key.n, 2, GEGLU_GATE_OVERFLOW)?;
    proof {
        assert(key.m * half * 2 <= key.m * key.n * 2) by (nonlinear_arith)
            requires
                half <= key.n,
                key.m >= 0,
        ;
    }
    let output_bytes: usize = elements * 2;
    let reference = default_bf16_geglu_tactic(ctx, key, plain, dual, sm89)?;
    let ghost keep = |tactic: TacticId| bf16_runnable(tactic, plain, dual, sm89);
    let mut candidates: Vec<TacticId> = Vec::new();
    let mut i: usize = 0;
    assert(offered@.take(0).filter(keep) =~= Seq::<TacticId>::empty()) by {
        reveal(Seq::filter);
    }
    while i < offered.len()
        invariant
            i <= offered.len(),
            keep == (|tactic: TacticId| bf16_runnable(tactic, plain, dual, sm89)),
            candidates@ == offered@.take(i as int).filter(keep),
        decreases offered.len() - i,
    {
        assert(offered@.take(i + 1).drop_last() =~= offered@.take(i as int));
        assert(offered@.take(i + 1).filter(keep) == if keep(offered@[i as int]) {
            offered@.take(i as int).filter(keep).push(offered@[i as int])
        } else {
            offered@.take(i as int).filter(keep)
        }) by {
            reveal(Seq::filter);
        }
        if runnable(offered[i], plain, dual, sm89) {
            candidates.push(offered[i]);
        }
        i = i + 1;
    }
    assert(offered@.take(i as int) =~= offered@);
    Ok(GegluAutotune { elements, output_bytes, gate_bytes, reference, candidates })
}

/// The dual-GEMM backends are compiled for one exact shape each.
pub fn validate_bf16_dual_geglu_shape(m: usize, full_n: usize, k: usize, expected_m: usize) -> (
    result: Result<(), Error>)
    ensures
        result == (if m == expected_m && full_n == 32768 && k == 2048 {
            Ok::<(), Error>(())
        } else {
            Err(Error::Number(DUAL_SHAPE, expected_m as i64))
        }),
{
    if m == expected_m && full_n == 32768 && k == 2048 {
        Ok(())
    } else {
        Err(Error::Number(DUAL_SHAPE, expected_m as i64))
    }
}

} // verus!
