//! Products of BF16 operands.

use super::products::{
    has_extents, launched_address, launched_entry, lemma_call_is_product, matrix, product_entry,
};
use super::quantized::is_key_of;
use crate::context::CudaContext;
use crate::cublas::{CublasHandle, Scalar};
use crate::error::Error;
use crate::kernels::gemm::bf16::{
    autotune_request_bf16_geglu, bf16_geglu_gate_bytes, bf16_geglu_output_bytes,
    bf16_geglu_tactic_uses_gate, default_bf16_geglu_tactic, gemm_bf16, gemm_bf16_advance,
    gemm_bf16_geglu_fused, gemm_bf16_launch, gemm_bf16_start, launch_bf16_geglu_tactic,
    launch_tactic_bf16, Bf16GegluLaunch, Bf16Launch, GegluAutotune, GegluRequest, GemmRequest,
    GemmStage,
};
use crate::kernels::gemm::fp8::{
    autotune_request_fp8_geglu, default_fp8_geglu_tactic, fp8_geglu_gate_bytes,
    fp8_geglu_output_bytes, fp8_geglu_tactic_uses_gate, launch_fp8_geglu_tactic, Factor,
    Fp8GegluAutotune, Fp8GegluLaunch,
};
use crate::kernels::gemm::plan::PreparedGemmPlan;
use crate::tuning::{
    BuildFeatures, Epilogue, GemmLayout, GemmOp, GemmTuningKey, ScaleMode, TacticBackend, TacticId,
    TuningDType,
};
use crate::types::{CudaBuffer, DType, Device, Tensor};
use vstd::prelude::*;

verus! {

/// The entry `(i, j)` that a launch computes from row-major operands.
pub open spec fn bf16_entry(launch: Bf16Launch, memory: spec_fn(int) -> int, i: int, j: int) -> int {
    match launch {
        Bf16Launch::Vendor(call) => launched_entry(call->GemmEx_0, memory, 0, 0, i, j),
        Bf16Launch::Native { activation, weight, dims, .. } => product_entry(
            matrix(memory, activation as int, 2, dims.k as int),
            matrix(memory, weight as int, 2, dims.n as int),
            dims.k as int,
            i,
            j,
        ),
    }
}

/// The address at which a launch leaves the entry `(i, j)`.
pub open spec fn bf16_address(launch: Bf16Launch, i: int, j: int) -> int {
    match launch {
        Bf16Launch::Vendor(call) => launched_address(call->GemmEx_0, 0, i, j),
        Bf16Launch::Native { output, dims, .. } => output + (i * dims.n + j) * 2,
    }
}

/// The extents of a launch, and for the vendor library factors of one and zero.
pub open spec fn has_shape(launch: Bf16Launch, m: int, n: int, k: int) -> bool {
    match launch {
        Bf16Launch::Vendor(call) => {
            let gemm = call->GemmEx_0;
            &&& call is GemmEx
            &&& has_extents(gemm, m, n, k)
            &&& gemm.alpha == Scalar::Real(0x3f80_0000) && gemm.beta == Scalar::Real(0)
        },
        Bf16Launch::Native { dims, .. } => dims.m == m && dims.n == n && dims.k == k,
    }
}

/// A launch leaves `sum_l activation[i, l] * weight[l, j]` at `output[i, j]`.
pub open spec fn is_bf16_product(
    launch: Bf16Launch,
    activation: CudaBuffer,
    weight: CudaBuffer,
    output: CudaBuffer,
    m: int,
    n: int,
    k: int,
    memory: spec_fn(int) -> int,
    i: int,
    j: int,
) -> bool {
    &&& has_shape(launch, m, n, k)
    &&& bf16_entry(launch, memory, i, j) == product_entry(
        matrix(memory, activation.address as int, 2, k),
        matrix(memory, weight.address as int, 2, n),
        k,
        i,
        j,
    )
    &&& bf16_address(launch, i, j) == output.address + (i * n + j) * 2
}

proof fn lemma_vendor(
    launch: Bf16Launch,
    activation: CudaBuffer,
    weight: CudaBuffer,
    n: int,
    k: int,
    memory: spec_fn(int) -> int,
    i: int,
    j: int,
)
    requires
        launch matches Bf16Launch::Vendor(call) ==> call is GemmEx && ({
            let gemm = call->GemmEx_0;
            &&& gemm.k == k
            &&& gemm.b.address == activation.address && gemm.b.ld == k
            &&& gemm.a.address == weight.address && gemm.a.ld == n
            &&& gemm.trans_a == crate::ffi::cublas::cublasOperation_t::CUBLAS_OP_N
            &&& gemm.trans_b == crate::ffi::cublas::cublasOperation_t::CUBLAS_OP_N
            &&& super::products::stored_width(gemm.a.dtype) == 2
            &&& super::products::stored_width(gemm.b.dtype) == 2
        }),
    ensures
        launch matches Bf16Launch::Vendor(call) ==> launched_entry(
            call->GemmEx_0,
            memory,
            0,
            0,
            i,
            j,
        ) == product_entry(
            matrix(memory, activation.address as int, 2, k),
            matrix(memory, weight.address as int, 2, n),
            k,
            i,
            j,
        ),
{
    if let Bf16Launch::Vendor(call) = launch {
        lemma_call_is_product(
            call->GemmEx_0,
            memory,
            0,
            0,
            matrix(memory, activation.address as int, 2, k),
            matrix(memory, weight.address as int, 2, n),
            i,
            j,
        );
    }
}

/// Whichever tactic runs, a launch is the product of its operands.
pub proof fn lemma_bf16_trial_multiplies(
    cublas: CublasHandle,
    key: GemmTuningKey,
    activation: CudaBuffer,
    weight: CudaBuffer,
    output: CudaBuffer,
    tactic: TacticId,
    result: Result<Bf16Launch, Error>,
    memory: spec_fn(int) -> int,
    i: int,
    j: int,
)
    requires
        call_ensures(
            launch_tactic_bf16,
            (&cublas, &key, &activation, &weight, &output, tactic),
            result,
        ),
        key.m <= i32::MAX,
        key.n <= i32::MAX,
        key.k <= i32::MAX,
    ensures
        result matches Ok(launch) ==> {
            &&& is_bf16_product(
                launch,
                activation,
                weight,
                output,
                key.m as int,
                key.n as int,
                key.k as int,
                memory,
                i,
                j,
            )
            &&& launch is Vendor <==> tactic.backend == TacticBackend::Vendor
            &&& launch matches Bf16Launch::Native { split, .. } ==> (split <==> tactic.backend
                == TacticBackend::CublasLtCustomSplitSerial)
        },
        result is Ok <==> {
            ||| tactic.backend == TacticBackend::Vendor
            ||| tactic.backend == TacticBackend::CublasLt
            ||| tactic.backend == TacticBackend::CublasLtCustom
            ||| tactic.backend == TacticBackend::CublasLtCustomSplitSerial
        },
{
    if let Ok(launch) = result {
        lemma_vendor(launch, activation, weight, key.n as int, key.k as int, memory, i, j);
    }
}

/// Every launch of a stage is the product of its operands. Only the two launching stages
/// launch.
pub proof fn lemma_bf16_stages_multiply(
    cublas: CublasHandle,
    request: GemmRequest,
    stage: GemmStage,
    output: CudaBuffer,
    made: Option<Bf16Launch>,
    memory: spec_fn(int) -> int,
    i: int,
    j: int,
)
    requires
        call_ensures(gemm_bf16_launch, (&cublas, &request, stage, &output), made),
        request.key.m <= i32::MAX,
        request.key.n <= i32::MAX,
        request.key.k <= i32::MAX,
    ensures
        made matches Some(launch) ==> {
            &&& is_bf16_product(
                launch,
                request.activation,
                request.weight,
                output,
                request.key.m as int,
                request.key.n as int,
                request.key.k as int,
                memory,
                i,
                j,
            )
            &&& launch is Vendor <==> stage is Vendor
            &&& launch matches Bf16Launch::Native { split, .. } ==> stage == (GemmStage::Tuned {
                split,
            })
        },
        made is Some <==> stage is Tuned || stage is Vendor,
{
    if let Some(launch) = made {
        lemma_vendor(
            launch,
            request.activation,
            request.weight,
            request.key.n as int,
            request.key.k as int,
            memory,
            i,
            j,
        );
    }
}

/// An accepted product names its own operands. It is accepted exactly where they conform.
pub proof fn lemma_bf16_request_names_its_operands(
    ctx: CudaContext,
    activation: Tensor,
    weight: Tensor,
    result: Result<GemmRequest, Error>,
)
    requires
        call_ensures(gemm_bf16, (&ctx, &activation, &weight), result),
        activation.dims@.len() == 2 && weight.dims@.len() == 2 ==> activation.dims@[0]
            * weight.dims@[1] * 2 <= usize::MAX,
    ensures
        result matches Ok(request) ==> {
            let (m, k, n) = (activation.dims@[0], activation.dims@[1], weight.dims@[1]);
            &&& is_key_of(request.key, ctx, m as int, n as int, k as int)
            &&& is_bf16_key(request.key) && request.key.epilogue == Epilogue::Plain
            &&& request.activation == activation.buffer
            &&& request.weight == weight.buffer
            &&& request.output_bytes == m * n * 2
            &&& request.rows == m && request.cols == n
        },
        result is Ok <==> {
            let here = Device::Cuda(ctx.device_id);
            &&& activation.dtype == DType::BF16 && weight.dtype == DType::BF16
            &&& activation.dims@.len() == 2 && weight.dims@.len() == 2
            &&& activation.dims@[1] == weight.dims@[0]
            &&& activation.device == here && weight.device == here
        },
{
    if activation.dims@.len() == 2 && weight.dims@.len() == 2 {
        let (m, n) = (activation.dims@[0], weight.dims@[1]);
        assert(0 <= m * n) by (nonlinear_arith);
    }
}

/// The key of BF16 operands and result, in rows.
pub open spec fn is_bf16_key(key: GemmTuningKey) -> bool {
    &&& key.op == GemmOp::Bf16
    &&& key.activation_dtype == TuningDType::Bf16
    &&& key.weight_dtype == TuningDType::Bf16
    &&& key.output_dtype == TuningDType::Bf16
    &&& key.layout == GemmLayout::RowMajor
    &&& key.scale_mode == ScaleMode::Unscaled
}

/// A product starts on its cuBLASLt tactic where it has one, and else on the vendor route. It
/// is done exactly where the first launch ran, or where a tuned one gave way to a vendor
/// plan that was installed and ran.
pub proof fn lemma_bf16_tactic_gives_way(
    tactic: TacticId,
    start: GemmStage,
    launched: bool,
    second: GemmStage,
    installed: bool,
    third: GemmStage,
    vendor: bool,
    last: GemmStage,
)
    requires
        call_ensures(gemm_bf16_start, (tactic,), start),
        call_ensures(gemm_bf16_advance, (start, launched), second),
        call_ensures(gemm_bf16_advance, (second, installed), third),
        call_ensures(gemm_bf16_advance, (third, vendor), last),
    ensures
        start is Tuned <==> tactic.backend == TacticBackend::CublasLt || tactic.backend
            == TacticBackend::CublasLtCustom || tactic.backend
            == TacticBackend::CublasLtCustomSplitSerial,
        start matches GemmStage::Tuned { split } ==> (split <==> tactic.backend
            == TacticBackend::CublasLtCustomSplitSerial),
        start is Tuned || start is Vendor,
        last is Done || last is Failed,
        last is Done <==> launched || (start is Tuned && installed && vendor),
        start is Tuned && !launched && installed ==> third is Vendor,
{
}

/// A GeGLU operator's gate value and up value for the entry `(i, c)`, in terms of columns of
/// the weight it reads. The column of the SM89 layout is any function of the column.
pub open spec fn bf16_gate_and_up(
    launch: Bf16GegluLaunch,
    memory: spec_fn(int) -> int,
    sm89_column: spec_fn(int) -> int,
    i: int,
    c: int,
) -> (int, int) {
    match launch {
        Bf16GegluLaunch::Decomposed { gemm, n, .. } => (
            bf16_entry(gemm, memory, i, c),
            bf16_entry(gemm, memory, i, n + c),
        ),
        Bf16GegluLaunch::Dual { activation, weight, dims, full_n, .. } => {
            let x = matrix(memory, activation as int, 2, dims.k as int);
            let y = matrix(memory, weight as int, 2, full_n as int);
            let left = c / 256 * 512 + c % 256;
            (
                product_entry(x, y, dims.k as int, i, left),
                product_entry(x, y, dims.k as int, i, left + 256),
            )
        },
        Bf16GegluLaunch::Sm89 { activation, weight, dims, full_n, .. } => {
            let x = matrix(memory, activation as int, 2, dims.k as int);
            let y = matrix(memory, weight as int, 2, full_n as int);
            (
                product_entry(x, y, dims.k as int, i, sm89_column(c)),
                product_entry(x, y, dims.k as int, i, sm89_column(dims.n + c)),
            )
        },
        Bf16GegluLaunch::Split { activation, weight, first, dims, full_n, .. } => (
            product_entry(
                matrix(memory, activation as int, 2, first.k as int),
                matrix(memory, weight as int, 2, first.n as int),
                first.k as int,
                i,
                c,
            ),
            product_entry(
                matrix(memory, activation as int, 2, dims.k as int),
                matrix(memory, weight as int, 2, full_n as int),
                dims.k as int,
                i,
                dims.n + c,
            ),
        ),
    }
}

/// The output and its extents: `m` rows of `n` columns.
pub open spec fn bf16_geglu_target(launch: Bf16GegluLaunch) -> (usize, i32, i32) {
    match launch {
        Bf16GegluLaunch::Decomposed { output, m, n, .. } => (output, m, n),
        Bf16GegluLaunch::Dual { output, dims, .. } => (output, dims.m, dims.n),
        Bf16GegluLaunch::Sm89 { output, dims, .. } => (output, dims.m, dims.n),
        Bf16GegluLaunch::Split { output, dims, .. } => (output, dims.m, dims.n),
    }
}

/// A GeGLU launch combines gate column `c` with up column `c`,
/// whichever tactic it runs, and reads the weight in the layout of its kernel.
pub proof fn lemma_bf16_geglu_pairs_gate_with_up(
    build: BuildFeatures,
    cublas: CublasHandle,
    key: GemmTuningKey,
    plan: Option<PreparedGemmPlan>,
    activation: CudaBuffer,
    plain_weight: Option<CudaBuffer>,
    dual_weight: Option<CudaBuffer>,
    sm89_weight: Option<CudaBuffer>,
    gate: Option<CudaBuffer>,
    output: CudaBuffer,
    tactic: TacticId,
    result: Result<Bf16GegluLaunch, Error>,
    memory: spec_fn(int) -> int,
    sm89_column: spec_fn(int) -> int,
    i: int,
    c: int,
)
    requires
        call_ensures(
            launch_bf16_geglu_tactic,
            (
                &build,
                &cublas,
                &key,
                plan,
                &activation,
                plain_weight,
                dual_weight,
                sm89_weight,
                gate,
                &output,
                tactic,
            ),
            result,
        ),
        plan matches Some(plan) ==> plan.key.m == key.m && plan.key.n == key.n && plan.key.k
            == key.k,
        key.m <= i32::MAX,
        key.n <= i32::MAX,
        key.k <= i32::MAX,
    ensures
        result matches Ok(launch) ==> {
            let half = key.n as int / 2;
            let x = matrix(memory, activation.address as int, 2, key.k as int);
            let weight = if launch is Dual {
                dual_weight
            } else if launch is Sm89 {
                sm89_weight
            } else {
                plain_weight
            };
            let y = matrix(memory, weight.unwrap().address as int, 2, key.n as int);
            let left = if launch is Dual {
                c / 256 * 512 + c % 256
            } else if launch is Sm89 {
                sm89_column(c)
            } else {
                c
            };
            let right = if launch is Dual {
                c / 256 * 512 + c % 256 + 256
            } else if launch is Sm89 {
                sm89_column(half + c)
            } else {
                half + c
            };
            &&& weight is Some
            &&& bf16_gate_and_up(launch, memory, sm89_column, i, c) == (
                product_entry(x, y, key.k as int, i, left),
                product_entry(x, y, key.k as int, i, right),
            )
            &&& bf16_geglu_target(launch).0 == output.address
            &&& bf16_geglu_target(launch).1 == key.m && bf16_geglu_target(launch).2 == half
            &&& launch is Sm89 <==> tactic.backend == TacticBackend::CutlassBf16GeGluSm89
            &&& launch is Dual <==> tactic.backend == TacticBackend::CutlassBf16DualGeGluM522
                || tactic.backend == TacticBackend::CutlassBf16DualGeGluM533
            &&& launch is Dual ==> key.n == 32768 && key.k == 2048 && (key.m == 522 || key.m == 533)
            &&& launch matches Bf16GegluLaunch::Sm89 { tactic: number, .. } ==> number
                == tactic.value
            &&& launch matches Bf16GegluLaunch::Decomposed { gemm, gate: through, .. } ==> {
                &&& bf16_address(gemm, i, c) == through + (i * key.n + c) * 2
                &&& through == gate.unwrap().address
            }
            &&& launch matches Bf16GegluLaunch::Split { gate: through, .. } ==> through
                == gate.unwrap().address
        },
{
    if let Ok(Bf16GegluLaunch::Decomposed { gemm, n, .. }) = result {
        let weight = plain_weight.unwrap();
        lemma_vendor(gemm, activation, weight, key.n as int, key.k as int, memory, i, c);
        lemma_vendor(gemm, activation, weight, key.n as int, key.k as int, memory, i, n + c);
    }
}

/// An accepted GeGLU names its own operands; the weight is read in the layout that it has.
pub proof fn lemma_bf16_geglu_request_names_its_operands(
    ctx: CudaContext,
    activation: Tensor,
    packed_weight: Tensor,
    interleaved: bool,
    automatic: Option<&Tensor>,
    sm89: Option<&Tensor>,
    result: Result<GegluRequest, Error>,
)
    requires
        call_ensures(
            gemm_bf16_geglu_fused,
            (&ctx, &activation, &packed_weight, interleaved, automatic, sm89),
            result,
        ),
    ensures
        result matches Ok(request) ==> {
            let (m, k, n) = (activation.dims@[0], activation.dims@[1], packed_weight.dims@[1]);
            &&& is_key_of(request.key, ctx, m as int, n as int, k as int)
            &&& is_key_of(request.plain_key, ctx, m as int, n as int, k as int)
            &&& is_bf16_key(request.key) && is_bf16_key(request.plain_key)
            &&& request.key.epilogue == Epilogue::GeGlu
            &&& request.plain_key.epilogue == Epilogue::Plain
            &&& request.activation == activation.buffer
            &&& interleaved ==> request.plain_weight is None && request.dual_weight == Some(
                packed_weight.buffer,
            )
            &&& !interleaved ==> request.plain_weight == Some(packed_weight.buffer)
            &&& !interleaved ==> (match automatic {
                Some(copy) => request.dual_weight == Some(copy.buffer),
                None => request.dual_weight is None,
            })
            &&& match sm89 {
                Some(copy) => request.sm89_weight == Some(copy.buffer),
                None => request.sm89_weight is None,
            }
            &&& request.rows == m
            &&& 2 * request.cols == n
        },
        result is Ok <==> {
            let here = Device::Cuda(ctx.device_id);
            &&& activation.dtype == DType::BF16 && packed_weight.dtype == DType::BF16
            &&& activation.dims@.len() == 2 && packed_weight.dims@.len() == 2
            &&& activation.dims@[1] == packed_weight.dims@[0] && packed_weight.dims@[1] % 2 == 0
            &&& activation.device == here && packed_weight.device == here
            &&& automatic matches Some(copy) ==> copy.dtype == DType::BF16 && copy.device == here
                && copy.dims@ == packed_weight.dims@
            &&& sm89 matches Some(copy) ==> copy.dtype == DType::BF16 && copy.device == here
                && copy.dims@ == packed_weight.dims@
        },
{
}

/// A tactic uses a gate buffer exactly where it cannot launch without one: others launch
/// alike with any buffer and with none.
pub proof fn lemma_bf16_gate_is_used_where_asked_for(
    build: BuildFeatures,
    cublas: CublasHandle,
    key: GemmTuningKey,
    plan: Option<PreparedGemmPlan>,
    activation: CudaBuffer,
    plain_weight: Option<CudaBuffer>,
    dual_weight: Option<CudaBuffer>,
    sm89_weight: Option<CudaBuffer>,
    gate: CudaBuffer,
    output: CudaBuffer,
    tactic: TacticId,
    uses: bool,
    without: Result<Bf16GegluLaunch, Error>,
    with: Result<Bf16GegluLaunch, Error>,
)
    requires
        call_ensures(bf16_geglu_tactic_uses_gate, (tactic,), uses),
        call_ensures(
            launch_bf16_geglu_tactic,
            (
                &build,
                &cublas,
                &key,
                plan,
                &activation,
                plain_weight,
                dual_weight,
                sm89_weight,
                None,
                &output,
                tactic,
            ),
            without,
        ),
        call_ensures(
            launch_bf16_geglu_tactic,
            (
                &build,
                &cublas,
                &key,
                plan,
                &activation,
                plain_weight,
                dual_weight,
                sm89_weight,
                Some(gate),
                &output,
                tactic,
            ),
            with,
        ),
    ensures
        uses ==> without is Err,
        !uses ==> without == with,
        without is Ok ==> !uses,
        with is Ok && without is Err ==> uses,
{
}

/// As for BF16 operands.
pub proof fn lemma_fp8_gate_is_used_where_asked_for(
    build: BuildFeatures,
    key: GemmTuningKey,
    plan: Option<PreparedGemmPlan>,
    activation: CudaBuffer,
    plain_weight: Option<CudaBuffer>,
    interleaved_weight: Option<CudaBuffer>,
    gate: CudaBuffer,
    output: CudaBuffer,
    alpha: Factor,
    output_scale: u32,
    tactic: TacticId,
    uses: bool,
    without: Result<Fp8GegluLaunch, Error>,
    with: Result<Fp8GegluLaunch, Error>,
)
    requires
        call_ensures(fp8_geglu_tactic_uses_gate, (tactic,), uses),
        call_ensures(
            launch_fp8_geglu_tactic,
            (
                &build,
                &key,
                plan,
                &activation,
                plain_weight,
                interleaved_weight,
                None,
                &output,
                alpha,
                output_scale,
                tactic,
            ),
            without,
        ),
        call_ensures(
            launch_fp8_geglu_tactic,
            (
                &build,
                &key,
                plan,
                &activation,
                plain_weight,
                interleaved_weight,
                Some(gate),
                &output,
                alpha,
                output_scale,
                tactic,
            ),
            with,
        ),
    ensures
        uses ==> without is Err,
        !uses ==> without == with,
        without is Ok ==> !uses,
        with is Ok && without is Err ==> uses,
{
}

/// A default tactic launches with the weights that it was chosen for, where the build has
/// its kernel and the shape is the kernel's.
pub proof fn lemma_bf16_default_launches(
    build: BuildFeatures,
    ctx: CudaContext,
    cublas: CublasHandle,
    key: GemmTuningKey,
    plan: PreparedGemmPlan,
    activation: CudaBuffer,
    plain_weight: Option<CudaBuffer>,
    dual_weight: Option<CudaBuffer>,
    sm89_weight: Option<CudaBuffer>,
    gate: CudaBuffer,
    output: CudaBuffer,
    default: Result<TacticId, Error>,
    result: Result<Bf16GegluLaunch, Error>,
)
    requires
        call_ensures(
            default_bf16_geglu_tactic,
            (&ctx, &key, plain_weight is Some, dual_weight is Some, sm89_weight is Some),
            default,
        ),
        default matches Ok(tactic) ==> call_ensures(
            launch_bf16_geglu_tactic,
            (
                &build,
                &cublas,
                &key,
                Some(plan),
                &activation,
                plain_weight,
                dual_weight,
                sm89_weight,
                Some(gate),
                &output,
                tactic,
            ),
            result,
        ),
        plan.tactic.backend == TacticBackend::Vendor,
        build.cutlass_gemm,
        build.cutlass_bf16_sm89,
        key.n == 32768,
        key.k == 2048,
    ensures
        default is Ok ==> result is Ok,
        default is Ok <==> plain_weight is Some || (ctx.caps.sm == 110 && dual_weight is Some && (
        key.m == 522 || key.m == 533)) || (ctx.caps.sm == 89 && sm89_weight is Some),
        default matches Ok(tactic) ==> tactic.value == 0,
        plain_weight is Some ==> (default matches Ok(tactic) && tactic.backend
            == TacticBackend::GemmThenGeGlu),
{
}

/// As for BF16 operands: without a plain weight the dual kernel is the only way.
pub proof fn lemma_fp8_default_launches(
    build: BuildFeatures,
    ctx: CudaContext,
    key: GemmTuningKey,
    plan: PreparedGemmPlan,
    activation: CudaBuffer,
    plain_weight: Option<CudaBuffer>,
    interleaved_weight: Option<CudaBuffer>,
    gate: CudaBuffer,
    output: CudaBuffer,
    alpha: Factor,
    output_scale: u32,
    default: Result<TacticId, Error>,
    result: Result<Fp8GegluLaunch, Error>,
)
    requires
        call_ensures(
            default_fp8_geglu_tactic,
            (&build, &ctx, &key, plain_weight is Some, interleaved_weight is Some),
            default,
        ),
        default matches Ok(tactic) ==> call_ensures(
            launch_fp8_geglu_tactic,
            (
                &build,
                &key,
                Some(plan),
                &activation,
                plain_weight,
                interleaved_weight,
                Some(gate),
                &output,
                alpha,
                output_scale,
                tactic,
            ),
            result,
        ),
        plan.tactic.backend == TacticBackend::Vendor,
    ensures
        default is Ok ==> result is Ok,
        default is Ok <==> plain_weight is Some || (ctx.caps.sm == 110 && interleaved_weight is Some
            && build.cutlass_gemm && key.op == GemmOp::Fp8F16 && (key.m == 522 || key.m == 533)
            && key.n == 32768 && key.k == 2048),
        default matches Ok(tactic) ==> tactic.value == 0,
        plain_weight is Some ==> (default matches Ok(tactic) && tactic.backend
            == TacticBackend::GemmThenGeGlu),
{
}

/// Two sizes of a GeGLU operator: a gate buffer holds both halves of every row, the result one.
pub proof fn lemma_geglu_sizes(
    m: usize,
    full_n: usize,
    n: usize,
    bf16_gate: Result<usize, Error>,
    bf16_output: Result<usize, Error>,
    fp8_gate: Result<usize, Error>,
    fp8_output: Result<usize, Error>,
)
    requires
        call_ensures(bf16_geglu_gate_bytes, (m, full_n), bf16_gate),
        call_ensures(bf16_geglu_output_bytes, (m, n), bf16_output),
        call_ensures(fp8_geglu_gate_bytes, (m, full_n), fp8_gate),
        call_ensures(fp8_geglu_output_bytes, (m, n), fp8_output),
    ensures
        bf16_gate matches Ok(bytes) ==> bytes == m * full_n * 2,
        bf16_output matches Ok(bytes) ==> bytes == m * n * 2,
        fp8_gate matches Ok(bytes) ==> bytes == m * full_n * 2,
        fp8_output matches Ok(bytes) ==> bytes == m * n,
        bf16_gate is Ok <==> m * full_n * 2 <= usize::MAX,
        bf16_output is Ok <==> m * n * 2 <= usize::MAX,
        fp8_gate is Ok <==> m * full_n * 2 <= usize::MAX,
        fp8_output is Ok <==> m * n <= usize::MAX,
{
    assert(0 <= m * n && 0 <= m * full_n) by (nonlinear_arith);
}

/// A tuning run of a GeGLU tries, of the tactics that are offered, those whose weight is at
/// hand, and compares with one whose weight is at hand.
pub proof fn lemma_geglu_trials_have_their_weight(
    ctx: CudaContext,
    key: GemmTuningKey,
    plain: bool,
    dual: bool,
    sm89: bool,
    offered: Vec<TacticId>,
    bf16: Result<GegluAutotune, Error>,
    fp8: Result<Fp8GegluAutotune, Error>,
    tactic: TacticId,
)
    requires
        call_ensures(
            autotune_request_bf16_geglu,
            (&ctx, &key, plain, dual, sm89, &offered),
            bf16,
        ),
        call_ensures(autotune_request_fp8_geglu, (&key, plain, dual, &offered), fp8),
    ensures
        bf16 matches Ok(request) ==> {
            &&& request.candidates@.contains(tactic) <==> {
                &&& offered@.contains(tactic)
                &&& tactic.backend == TacticBackend::GemmThenGeGlu ==> plain
                &&& tactic.backend == TacticBackend::CutlassBf16DualGeGluM522 ==> dual
                &&& tactic.backend == TacticBackend::CutlassBf16DualGeGluM533 ==> dual
                &&& tactic.backend == TacticBackend::CutlassBf16GeGluSm89 ==> sm89
            }
            &&& request.reference.backend == TacticBackend::GemmThenGeGlu <==> plain
            &&& request.elements == key.m * (key.n as int / 2)
            &&& request.output_bytes == key.m * (key.n as int / 2) * 2
            &&& request.gate_bytes == key.m * key.n * 2
        },
        fp8 matches Ok(request) ==> {
            &&& request.candidates@.contains(tactic) <==> {
                &&& offered@.contains(tactic)
                &&& tactic.backend == TacticBackend::GemmThenGeGlu ==> plain
                &&& tactic.backend == TacticBackend::CutlassFp8DualGeGlu ==> dual
            }
            &&& request.reference.backend == TacticBackend::GemmThenGeGlu <==> plain
            &&& request.elements == key.m * (key.n as int / 2)
            &&& request.decoded_bytes == key.m * (key.n as int / 2) * 2
            &&& request.gate_bytes == key.m * key.n * 2
        },
{
    let wide = |t: TacticId| crate::kernels::gemm::bf16::bf16_runnable(t, plain, dual, sm89);
    let narrow = |t: TacticId| crate::kernels::gemm::fp8::fp8_runnable(t, plain, dual);
    lemma_kept(offered@, wide, tactic);
    lemma_kept(offered@, narrow, tactic);
}

proof fn lemma_kept(all: Seq<TacticId>, keep: spec_fn(TacticId) -> bool, tactic: TacticId)
    ensures
        all.filter(keep).contains(tactic) <==> all.contains(tactic) && keep(tactic),
    decreases all.len(),
{
    reveal(Seq::filter);
    if all.len() > 0 {
        let rest = all.drop_last();
        lemma_kept(rest, keep, tactic);
        assert(all =~= rest.push(all.last()));
        let kept = rest.filter(keep);
        assert(all.contains(tactic) <==> rest.contains(tactic) || tactic == all.last()) by {
            if rest.contains(tactic) {
                let i = rest.index_of(tactic);
                assert(all[i] == tactic);
            }
            if tactic == all.last() {
                assert(all[all.len() - 1] == tactic);
            }
            if all.contains(tactic) {
                let i = all.index_of(tactic);
                if i < all.len() - 1 {
                    assert(rest[i] == tactic);
                }
            }
        }
        let more = kept.push(all.last());
        assert(more.contains(tactic) <==> kept.contains(tactic) || tactic == all.last()) by {
            if kept.contains(tactic) {
                let i = kept.index_of(tactic);
                assert(more[i] == tactic);
            }
            if tactic == all.last() {
                assert(more[more.len() - 1] == tactic);
            }
            if more.contains(tactic) {
                let i = more.index_of(tactic);
                if i < more.len() - 1 {
                    assert(kept[i] == tactic);
                }
            }
        }
    }
}

} // verus!
