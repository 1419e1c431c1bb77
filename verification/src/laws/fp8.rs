//! Products of E4M3 operands.
//!
//! A scale is given by the bits of a 32-bit float. The laws hold for every way to
//! read bits as numbers that reads the bits of one as one.

use super::memory::element;
use super::products::{
    has_extents, launched_address, launched_entry, lemma_call_is_product, lemma_product_scales,
    matrix, product_entry, transposed,
};
use super::quantized::is_key_of;
use crate::context::CudaContext;
use crate::cublas::{CublasHandle, Scalar};
use crate::error::Error;
use crate::kernels::gemm::fp8::{
    copy_fused_output, cublaslt_fp8_gemm_f16, cublaslt_fp8_gemm_split_f16,
    cublaslt_fp8_gemm_split_first_f16, cutlass_fp8_gemm_f16, dequantize_e4m3_f16,
    fp8_emulation_calls, fp8_reference_calls, gemm_fp8, gemm_fp8_advance, gemm_fp8_bf16,
    gemm_fp8_bias_bf16, gemm_fp8_dynamic_bf16, gemm_fp8_geglu_fused, gemm_fp8_launch,
    launch_fp8_geglu_tactic, launch_tactic_fp8, Dequantize, DynamicFp8Launch, DynamicFp8WeightView,
    Factor, Fp8Bf16Launch, Fp8Emulation, Fp8Form, Fp8GegluLaunch, Fp8GegluRequest, Fp8Launch,
    Fp8Request, Fp8Stage, Fp8WeightView, FusedReadback,
};
use crate::kernels::gemm::plan::PreparedGemmPlan;
use crate::text::EnvironmentValue;
use crate::tuning::{
    BuildFeatures, Epilogue, GemmLayout, GemmOp, GemmTuningKey, ScaleMode, TacticBackend, TacticId,
    TuningDType,
};
use crate::types::{CudaBuffer, DType, Device, Tensor};
use vstd::prelude::*;

verus! {

/// The number that a factor stands for.
pub open spec fn factor(reading: spec_fn(u32) -> int, scale: Factor) -> int {
    reading(scale.left) * reading(scale.right)
}

/// The operands, extents and factor of a launch: activation, weight, output, `m`, `n`,
/// `k` and `alpha`.
pub open spec fn fp8_parts(launch: Fp8Launch) -> (usize, usize, usize, i32, i32, i32, Factor) {
    match launch {
        Fp8Launch::CublasLt { activation, weight, output, dims, alpha, .. } => (
            activation,
            weight,
            output,
            dims.m,
            dims.n,
            dims.k,
            alpha,
        ),
        Fp8Launch::Cutlass { activation, weight, output, dims, alpha, .. } => (
            activation,
            weight,
            output,
            dims.m,
            dims.n,
            dims.k,
            alpha,
        ),
    }
}

/// The entry `(i, j)` that a launch computes from row-major operands.
pub open spec fn fp8_entry(
    launch: Fp8Launch,
    memory: spec_fn(int) -> int,
    reading: spec_fn(u32) -> int,
    i: int,
    j: int,
) -> int {
    let (activation, weight, output, m, n, k, alpha) = fp8_parts(launch);
    factor(reading, alpha) * product_entry(
        matrix(memory, activation as int, 1, k as int),
        matrix(memory, weight as int, 1, n as int),
        k as int,
        i,
        j,
    )
}

/// The address at which a launch leaves the entry `(i, j)`.
pub open spec fn fp8_address(launch: Fp8Launch, i: int, j: int) -> int {
    let (activation, weight, output, m, n, k, alpha) = fp8_parts(launch);
    output + (i * n + j) * 2
}

/// A launch leaves `alpha * sum_l activation[i, l] * weight[l, j]` at `output[i, j]`, for
/// the number `alpha`.
pub open spec fn is_fp8_product(
    launch: Fp8Launch,
    activation: int,
    weight: int,
    output: int,
    m: int,
    n: int,
    k: int,
    alpha: int,
    memory: spec_fn(int) -> int,
    reading: spec_fn(u32) -> int,
    i: int,
    j: int,
) -> bool {
    &&& fp8_entry(launch, memory, reading, i, j) == alpha * product_entry(
        matrix(memory, activation, 1, k),
        matrix(memory, weight, 1, n),
        k,
        i,
        j,
    )
    &&& fp8_address(launch, i, j) == output + (i * n + j) * 2
    &&& fp8_parts(launch).3 == m && fp8_parts(launch).4 == n && fp8_parts(launch).5 == k
    &&& fp8_parts(launch).2 == output
}

/// The four native products scale and multiply alike. They differ in how they divide
/// the work.
pub proof fn lemma_fp8_calls_multiply(
    activation: CudaBuffer,
    weight: CudaBuffer,
    output: CudaBuffer,
    m: usize,
    n: usize,
    k: usize,
    alpha: Factor,
    tactic: i32,
    whole: Fp8Launch,
    split: Fp8Launch,
    first: Fp8Launch,
    tile: Fp8Launch,
    memory: spec_fn(int) -> int,
    reading: spec_fn(u32) -> int,
    i: int,
    j: int,
)
    requires
        call_ensures(cublaslt_fp8_gemm_f16, (&activation, &weight, &output, m, n, k, alpha), whole),
        call_ensures(
            cublaslt_fp8_gemm_split_f16,
            (&activation, &weight, &output, m, n, k, alpha),
            split,
        ),
        call_ensures(
            cublaslt_fp8_gemm_split_first_f16,
            (&activation, &weight, &output, m, n, k, alpha),
            first,
        ),
        call_ensures(
            cutlass_fp8_gemm_f16,
            (&activation, &weight, &output, m, n, k, alpha, tactic),
            tile,
        ),
        m <= i32::MAX,
        n <= i32::MAX,
        k <= i32::MAX,
    ensures
        forall|launch: Fp8Launch|
            launch == whole || launch == split || launch == first || launch == tile
                ==> #[trigger] is_fp8_product(
                launch,
                activation.address as int,
                weight.address as int,
                output.address as int,
                m as int,
                n as int,
                k as int,
                factor(reading, alpha),
                memory,
                reading,
                i,
                j,
            ),
        whole matches Fp8Launch::CublasLt { form, .. } && form == Fp8Form::Whole,
        split matches Fp8Launch::CublasLt { form, .. } && form == Fp8Form::Split,
        first matches Fp8Launch::CublasLt { form, .. } && form == Fp8Form::SplitFirst,
        tile matches Fp8Launch::Cutlass { tactic: number, .. } && number == tactic,
{
}

/// Whatever tactic was resolved, a launch scales by the activation's scale and the
/// weight's. It is refused only where it asks for a tile that the build lacks.
pub proof fn lemma_fp8_launch_scales_both_operands(
    build: BuildFeatures,
    request: Fp8Request,
    tactic: TacticId,
    output: CudaBuffer,
    result: Result<Fp8Launch, Error>,
    memory: spec_fn(int) -> int,
    reading: spec_fn(u32) -> int,
    i: int,
    j: int,
)
    requires
        call_ensures(gemm_fp8_launch, (&build, &request, tactic, &output), result),
        request.key.m <= i32::MAX,
        request.key.n <= i32::MAX,
        request.key.k <= i32::MAX,
    ensures
        result matches Ok(launch) ==> {
            &&& is_fp8_product(
                launch,
                request.activation.address as int,
                request.weight.address as int,
                output.address as int,
                request.key.m as int,
                request.key.n as int,
                request.key.k as int,
                reading(request.activation_scale) * reading(request.weight_scale),
                memory,
                reading,
                i,
                j,
            )
            &&& launch is Cutlass <==> tactic.backend == TacticBackend::Cutlass
            &&& launch matches Fp8Launch::Cutlass { tactic: number, .. } ==> number == tactic.value
            &&& launch matches Fp8Launch::CublasLt { form, .. } ==> form != Fp8Form::SplitFirst
            &&& tactic.backend == TacticBackend::Vendor || tactic.backend == TacticBackend::CublasLt
                || tactic.backend == TacticBackend::CublasLtCustom ==> (launch matches
                Fp8Launch::CublasLt { form, .. } && form == Fp8Form::Whole)
            &&& tactic.backend == TacticBackend::CublasLtCustomSplitSerial ==> (launch matches
                Fp8Launch::CublasLt { form, .. } && form == Fp8Form::Split)
        },
        result is Err <==> tactic.backend == TacticBackend::Cutlass && !build.cutlass_gemm,
{
}

/// A tactic on trial multiplies as a resolved one does.
pub proof fn lemma_fp8_trial_multiplies(
    build: BuildFeatures,
    key: GemmTuningKey,
    activation: CudaBuffer,
    weight: CudaBuffer,
    output: CudaBuffer,
    alpha: Factor,
    tactic: TacticId,
    result: Result<Fp8Launch, Error>,
    memory: spec_fn(int) -> int,
    reading: spec_fn(u32) -> int,
    i: int,
    j: int,
)
    requires
        call_ensures(
            launch_tactic_fp8,
            (&build, &key, &activation, &weight, &output, alpha, tactic),
            result,
        ),
        key.m <= i32::MAX,
        key.n <= i32::MAX,
        key.k <= i32::MAX,
    ensures
        result matches Ok(launch) ==> {
            &&& is_fp8_product(
                launch,
                activation.address as int,
                weight.address as int,
                output.address as int,
                key.m as int,
                key.n as int,
                key.k as int,
                factor(reading, alpha),
                memory,
                reading,
                i,
                j,
            )
            &&& launch matches Fp8Launch::Cutlass { tactic: number, .. } ==> number == tactic.value
        },
        result is Ok <==> {
            ||| tactic.backend == TacticBackend::Vendor
            ||| tactic.backend == TacticBackend::CublasLt
            ||| tactic.backend == TacticBackend::CublasLtCustom
            ||| tactic.backend == TacticBackend::CublasLtCustomSplitSerial
            ||| tactic.backend == TacticBackend::Cutlass && build.cutlass_gemm
        },
{
}

/// An accepted product names its own operands and scales. It is accepted exactly where
/// they conform and the copies that it decodes to have a size.
pub proof fn lemma_fp8_request_names_its_operands(
    ctx: CudaContext,
    activation: Tensor,
    activation_scale: u32,
    weight: Fp8WeightView<'_>,
    emulated: bool,
    result: Result<Fp8Request, Error>,
)
    requires
        call_ensures(gemm_fp8, (&ctx, &activation, activation_scale, weight, emulated), result),
        activation.dims@.len() == 2 && weight.values_e4m3.dims@.len() == 2 ==> activation.dims@[0]
            * weight.values_e4m3.dims@[1] * 2 <= usize::MAX,
    ensures
        result matches Ok(request) ==> {
            let (m, k, n) = (
                activation.dims@[0],
                activation.dims@[1],
                weight.values_e4m3.dims@[1],
            );
            &&& is_key_of(request.key, ctx, m as int, n as int, k as int)
            &&& request.key.op == GemmOp::Fp8F16
            &&& request.key.activation_dtype == TuningDType::F8E4M3
            &&& request.key.weight_dtype == TuningDType::F8E4M3
            &&& request.key.output_dtype == TuningDType::F16
            &&& request.key.layout == GemmLayout::RowMajor
            &&& request.key.scale_mode == ScaleMode::PerTensor
            &&& request.key.epilogue == Epilogue::Plain
            &&& request.activation == activation.buffer
            &&& request.weight == weight.values_e4m3.buffer
            &&& request.activation_scale == activation_scale
            &&& request.weight_scale == weight.scale
            &&& request.output_bytes == m * n * 2
            &&& request.emulation is Some <==> emulated
            &&& request.emulation matches Some(copies) ==> copies.activation == m * k * 2
                && copies.weight == k * n * 2
        },
        result is Ok <==> {
            &&& !weight.dual_geglu_interleaved
            &&& activation.dtype == DType::F8E4M3 && weight.values_e4m3.dtype == DType::F8E4M3
            &&& 0 < activation_scale < 0x7f80_0000 && 0 < weight.scale < 0x7f80_0000
            &&& activation.dims@.len() == 2 && weight.values_e4m3.dims@.len() == 2
            &&& activation.dims@[1] == weight.values_e4m3.dims@[0]
            &&& activation.device == Device::Cuda(ctx.device_id)
            &&& weight.values_e4m3.device == Device::Cuda(ctx.device_id)
            &&& emulated ==> activation.dims@[0] * activation.dims@[1] * 2 <= usize::MAX
                && activation.dims@[1] * weight.values_e4m3.dims@[1] * 2 <= usize::MAX
        },
{
    if activation.dims@.len() == 2 && weight.values_e4m3.dims@.len() == 2 {
        let (m, k, n) = (activation.dims@[0], activation.dims@[1], weight.values_e4m3.dims@[1]);
        assert(0 <= m * n && 0 <= m * k && 0 <= k * n) by (nonlinear_arith);
    }
}

/// A decoded element: the stored one times the factor.
pub open spec fn decoded(
    call: Dequantize,
    memory: spec_fn(int) -> int,
    reading: spec_fn(u32) -> int,
    e: int,
) -> int {
    factor(reading, call.scale) * element(memory, call.input as int, 1, e)
}

/// Memory once a copy was decoded.
pub open spec fn is_decoded(
    call: Dequantize,
    memory: spec_fn(int) -> int,
    after: spec_fn(int) -> int,
    reading: spec_fn(u32) -> int,
) -> bool {
    forall|e: int|
        0 <= e < call.elements ==> #[trigger] element(after, call.output as int, 2, e) == decoded(
            call,
            memory,
            reading,
            e,
        )
}

/// The calls of a product over decoded copies leave `alpha * sum_l activation[i, l] *
/// weight[l, j]` at `output[i, j]`.
pub open spec fn is_decoded_product(
    calls: Fp8Emulation,
    activation: int,
    weight: int,
    output: int,
    m: int,
    n: int,
    k: int,
    alpha: int,
    memory: spec_fn(int) -> int,
    after: spec_fn(int) -> int,
    i: int,
    j: int,
) -> bool {
    let gemm = calls.gemm->GemmEx_0;
    &&& calls.gemm is GemmEx
    &&& has_extents(gemm, m, n, k)
    &&& gemm.alpha == Scalar::Real(0x3f80_0000) && gemm.beta == Scalar::Real(0)
    &&& launched_entry(gemm, after, 0, 0, i, j) == alpha * product_entry(
        matrix(memory, activation, 1, k),
        matrix(memory, weight, 1, n),
        k,
        i,
        j,
    )
    &&& launched_address(gemm, 0, i, j) == output + (i * n + j) * 2
}

proof fn lemma_copies_multiply(
    calls: Fp8Emulation,
    m: int,
    n: int,
    k: int,
    memory: spec_fn(int) -> int,
    after: spec_fn(int) -> int,
    reading: spec_fn(u32) -> int,
    i: int,
    j: int,
)
    requires
        is_decoded(calls.activation, memory, after, reading),
        is_decoded(calls.weight, memory, after, reading),
        0 <= m <= i32::MAX,
        0 <= n <= i32::MAX,
        0 <= k <= i32::MAX,
        calls.activation.elements == m * k,
        calls.weight.elements == k * n,
        0 <= i < m,
        0 <= j < n,
        calls.gemm is GemmEx,
        ({
            let gemm = calls.gemm->GemmEx_0;
            &&& has_extents(gemm, m, n, k)
            &&& gemm.b.address == calls.activation.output && gemm.b.ld == k
            &&& gemm.a.address == calls.weight.output && gemm.a.ld == n
            &&& gemm.trans_a == crate::ffi::cublas::cublasOperation_t::CUBLAS_OP_N
            &&& gemm.trans_b == crate::ffi::cublas::cublasOperation_t::CUBLAS_OP_N
            &&& super::products::stored_width(gemm.a.dtype) == 2
            &&& super::products::stored_width(gemm.b.dtype) == 2
        }),
    ensures
        launched_entry(calls.gemm->GemmEx_0, after, 0, 0, i, j) == factor(
            reading,
            calls.activation.scale,
        ) * factor(reading, calls.weight.scale) * product_entry(
            matrix(memory, calls.activation.input as int, 1, k),
            matrix(memory, calls.weight.input as int, 1, n),
            k,
            i,
            j,
        ),
{
    let x = matrix(memory, calls.activation.input as int, 1, k);
    let y = matrix(memory, calls.weight.input as int, 1, n);
    let u = matrix(after, calls.activation.output as int, 2, k);
    let v = matrix(after, calls.weight.output as int, 2, n);
    let p = factor(reading, calls.activation.scale);
    let q = factor(reading, calls.weight.scale);
    lemma_call_is_product(calls.gemm->GemmEx_0, after, 0, 0, u, v, i, j);
    assert forall|l: int| 0 <= l < k implies #[trigger] u(i, l) == p * x(i, l) by {
        let e = i * k + l;
        assert(0 <= e < m * k) by (nonlinear_arith)
            requires
                e == i * k + l,
                0 <= i < m,
                0 <= l < k,
        ;
        assert(element(after, calls.activation.output as int, 2, e) == decoded(
            calls.activation,
            memory,
            reading,
            e,
        ));
    }
    assert forall|l: int| 0 <= l < k implies #[trigger] v(l, j) == q * y(l, j) by {
        let e = l * n + j;
        assert(0 <= e < k * n) by (nonlinear_arith)
            requires
                e == l * n + j,
                0 <= l < k,
                0 <= j < n,
        ;
        assert(element(after, calls.weight.output as int, 2, e) == decoded(
            calls.weight,
            memory,
            reading,
            e,
        ));
    }
    lemma_product_scales(x, y, u, v, p, q, k, i, j);
}

/// A product without FP8 cores is the product that the cores compute: the copies carry
/// both scales, and every entry is what `lemma_fp8_launch_scales_both_operands` states.
pub proof fn lemma_emulation_agrees_with_cores(
    cublas: CublasHandle,
    request: Fp8Request,
    activation_f16: CudaBuffer,
    weight_f16: CudaBuffer,
    output: CudaBuffer,
    result: Result<Fp8Emulation, Error>,
    build: BuildFeatures,
    tactic: TacticId,
    native: Result<Fp8Launch, Error>,
    memory: spec_fn(int) -> int,
    after: spec_fn(int) -> int,
    reading: spec_fn(u32) -> int,
    i: int,
    j: int,
)
    requires
        call_ensures(
            fp8_emulation_calls,
            (&cublas, &request, &activation_f16, &weight_f16, &output),
            result,
        ),
        call_ensures(gemm_fp8_launch, (&build, &request, tactic, &output), native),
        result matches Ok(calls) ==> is_decoded(calls.activation, memory, after, reading)
            && is_decoded(calls.weight, memory, after, reading),
        reading(0x3f80_0000) == 1,
        request.key.m <= i32::MAX,
        request.key.n <= i32::MAX,
        request.key.k <= i32::MAX,
        request.key.m * request.key.k <= usize::MAX,
        request.key.k * request.key.n <= usize::MAX,
        0 <= i < request.key.m,
        0 <= j < request.key.n,
    ensures
        result matches Ok(calls) && is_decoded_product(
            calls,
            request.activation.address as int,
            request.weight.address as int,
            output.address as int,
            request.key.m as int,
            request.key.n as int,
            request.key.k as int,
            reading(request.activation_scale) * reading(request.weight_scale),
            memory,
            after,
            i,
            j,
        ),
        native matches Ok(launch) ==> {
            &&& launched_entry(result.unwrap().gemm->GemmEx_0, after, 0, 0, i, j) == fp8_entry(
                launch,
                memory,
                reading,
                i,
                j,
            )
            &&& launched_address(result.unwrap().gemm->GemmEx_0, 0, i, j) == fp8_address(
                launch,
                i,
                j,
            )
        },
{
    let calls = result.unwrap();
    let (m, n, k) = (request.key.m, request.key.n, request.key.k);
    lemma_counts(m, n, k);
    lemma_copies_multiply(calls, m as int, n as int, k as int, memory, after, reading, i, j);
    let (s, t) = (reading(request.activation_scale), reading(request.weight_scale));
    assert(s * 1 * (t * 1) == s * t) by (nonlinear_arith);
}

proof fn lemma_counts(m: usize, n: usize, k: usize)
    requires
        m <= i32::MAX,
        n <= i32::MAX,
        k <= i32::MAX,
    ensures
        0 <= m * k <= i64::MAX,
        0 <= k * n <= i64::MAX,
{
    assert(0 <= m * k <= 0x7fff_ffff * 0x7fff_ffff) by (nonlinear_arith)
        requires
            0 <= m <= 0x7fff_ffff,
            0 <= k <= 0x7fff_ffff,
    ;
    assert(0 <= k * n <= 0x7fff_ffff * 0x7fff_ffff) by (nonlinear_arith)
        requires
            0 <= n <= 0x7fff_ffff,
            0 <= k <= 0x7fff_ffff,
    ;
}

/// The reference of a tuning run is the scaled product as well.
pub proof fn lemma_fp8_reference_is_product(
    cublas: CublasHandle,
    key: GemmTuningKey,
    activation: CudaBuffer,
    weight: CudaBuffer,
    alpha: Factor,
    activation_f16: CudaBuffer,
    weight_f16: CudaBuffer,
    output: CudaBuffer,
    result: Result<Fp8Emulation, Error>,
    memory: spec_fn(int) -> int,
    after: spec_fn(int) -> int,
    reading: spec_fn(u32) -> int,
    i: int,
    j: int,
)
    requires
        call_ensures(
            fp8_reference_calls,
            (
                &cublas,
                &key,
                &activation,
                &weight,
                alpha,
                &activation_f16,
                &weight_f16,
                &output,
            ),
            result,
        ),
        result matches Ok(calls) ==> is_decoded(calls.activation, memory, after, reading)
            && is_decoded(calls.weight, memory, after, reading),
        reading(0x3f80_0000) == 1,
        key.m <= i32::MAX,
        key.n <= i32::MAX,
        key.k <= i32::MAX,
        key.m * key.k <= usize::MAX,
        key.k * key.n <= usize::MAX,
        0 <= i < key.m,
        0 <= j < key.n,
    ensures
        result matches Ok(calls) && is_decoded_product(
            calls,
            activation.address as int,
            weight.address as int,
            output.address as int,
            key.m as int,
            key.n as int,
            key.k as int,
            factor(reading, alpha),
            memory,
            after,
            i,
            j,
        ),
{
    let calls = result.unwrap();
    let (m, n, k) = (key.m, key.n, key.k);
    lemma_counts(m, n, k);
    lemma_copies_multiply(calls, m as int, n as int, k as int, memory, after, reading, i, j);
    let t = factor(reading, alpha);
    assert(1 * 1 * t == t) by (nonlinear_arith);
}

/// Decoding reads and writes what it was given.
pub proof fn lemma_dequantize_decodes_its_input(
    input: CudaBuffer,
    output: CudaBuffer,
    elements: usize,
    scale: Factor,
    call: Dequantize,
    memory: spec_fn(int) -> int,
    reading: spec_fn(u32) -> int,
    e: int,
)
    requires
        call_ensures(dequantize_e4m3_f16, (&input, &output, elements, scale), call),
        elements <= i64::MAX,
    ensures
        decoded(call, memory, reading, e) == factor(reading, scale) * element(
            memory,
            input.address as int,
            1,
            e,
        ),
        call.output == output.address,
        call.elements == elements,
{
}

/// A product is done exactly where its tactic ran, or where another tactic than the
/// vendor's gave way to a vendor plan that was installed and ran.
pub proof fn lemma_fp8_tactic_gives_way(
    tactic: TacticId,
    selected: bool,
    second: Fp8Stage,
    installed: bool,
    third: Fp8Stage,
    vendor: bool,
    last: Fp8Stage,
)
    requires
        call_ensures(gemm_fp8_advance, (Fp8Stage::Selected, tactic, selected), second),
        call_ensures(gemm_fp8_advance, (second, tactic, installed), third),
        call_ensures(gemm_fp8_advance, (third, tactic, vendor), last),
    ensures
        last == Fp8Stage::Done || last == Fp8Stage::Failed,
        last == Fp8Stage::Done <==> selected || (tactic.backend != TacticBackend::Vendor
            && installed && vendor),
        !selected && tactic.backend != TacticBackend::Vendor ==> second == Fp8Stage::Fallback,
        !selected && tactic.backend != TacticBackend::Vendor && installed ==> third
            == Fp8Stage::Vendor,
{
}

/// The column of a `[gate256, up256]` matrix that holds gate column `c`.
pub open spec fn gate_column(c: int) -> int {
    c / 256 * 512 + c % 256
}

/// What a GeGLU launch combines for the entry `(i, c)`.
pub open spec fn gate_and_up_entry(
    launch: Fp8GegluLaunch,
    memory: spec_fn(int) -> int,
    reading: spec_fn(u32) -> int,
    i: int,
    c: int,
) -> (int, int) {
    match launch {
        Fp8GegluLaunch::Decomposed { gemm, n, .. } => (
            fp8_entry(gemm, memory, reading, i, c),
            fp8_entry(gemm, memory, reading, i, n + c),
        ),
        Fp8GegluLaunch::Dual { activation, weight, dims, full_n, alpha, .. } => {
            let x = matrix(memory, activation as int, 1, dims.k as int);
            let y = matrix(memory, weight as int, 1, full_n as int);
            (
                factor(reading, alpha) * product_entry(x, y, dims.k as int, i, gate_column(c)),
                factor(reading, alpha) * product_entry(x, y, dims.k as int, i, gate_column(c) + 256),
            )
        },
        Fp8GegluLaunch::Split { first, activation, weight, dims, full_n, alpha, .. } => {
            let x = matrix(memory, activation as int, 1, dims.k as int);
            let y = matrix(memory, weight as int, 1, full_n as int);
            (
                fp8_entry(first, memory, reading, i, c),
                factor(reading, alpha) * product_entry(x, y, dims.k as int, i, dims.n + c),
            )
        },
    }
}

/// The output, its scale and its extents: `m` rows of `n` columns.
pub open spec fn geglu_target(launch: Fp8GegluLaunch) -> (usize, u32, i32, i32) {
    match launch {
        Fp8GegluLaunch::Decomposed { output, output_scale, m, n, .. } => (
            output,
            output_scale,
            m,
            n,
        ),
        Fp8GegluLaunch::Dual { output, output_scale, dims, .. } => (
            output,
            output_scale,
            dims.m,
            dims.n,
        ),
        Fp8GegluLaunch::Split { output, output_scale, dims, .. } => (
            output,
            output_scale,
            dims.m,
            dims.n,
        ),
    }
}

/// A GeGLU launch combines gate column `c` with column `c` of the up
/// projection, whichever tactic it runs: the left half of the plain weight with the
/// right half, or the two halves of a block of the interleaved one. What goes through
/// a gate buffer is read where it was written.
pub proof fn lemma_fp8_geglu_pairs_gate_with_up(
    build: BuildFeatures,
    key: GemmTuningKey,
    plan: Option<PreparedGemmPlan>,
    activation: CudaBuffer,
    plain_weight: Option<CudaBuffer>,
    interleaved_weight: Option<CudaBuffer>,
    gate: Option<CudaBuffer>,
    output: CudaBuffer,
    alpha: Factor,
    output_scale: u32,
    tactic: TacticId,
    result: Result<Fp8GegluLaunch, Error>,
    memory: spec_fn(int) -> int,
    reading: spec_fn(u32) -> int,
    i: int,
    c: int,
)
    requires
        call_ensures(
            launch_fp8_geglu_tactic,
            (
                &build,
                &key,
                plan,
                &activation,
                plain_weight,
                interleaved_weight,
                gate,
                &output,
                alpha,
                output_scale,
                tactic,
            ),
            result,
        ),
        plan matches Some(plan) ==> plan.key.m == key.m && plan.key.n == key.n && plan.key.k
            == key.k,
        key.m <= i32::MAX,
        key.n <= i32::MAX,
        key.k <= i32::MAX,
    ensures
        result matches Ok(launch) ==> {
            let half = key.n as int / 2;
            let x = matrix(memory, activation.address as int, 1, key.k as int);
            let dual = tactic.backend == TacticBackend::CutlassFp8DualGeGlu;
            let weight = if dual {
                interleaved_weight
            } else {
                plain_weight
            };
            let y = matrix(memory, weight.unwrap().address as int, 1, key.n as int);
            let left = if dual {
                gate_column(c)
            } else {
                c
            };
            let right = if dual {
                gate_column(c) + 256
            } else {
                half + c
            };
            &&& weight is Some
            &&& launch is Dual <==> dual
            &&& gate_and_up_entry(launch, memory, reading, i, c) == (
                factor(reading, alpha) * product_entry(x, y, key.k as int, i, left),
                factor(reading, alpha) * product_entry(x, y, key.k as int, i, right),
            )
            &&& geglu_target(launch).0 == output.address
            &&& geglu_target(launch).1 == output_scale
            &&& geglu_target(launch).2 == key.m
            &&& geglu_target(launch).3 == half
            &&& !dual ==> gate is Some
            &&& launch matches Fp8GegluLaunch::Decomposed { gemm, gate: through, .. } ==> {
                &&& fp8_address(gemm, i, c) == through + (i * key.n + c) * 2
                &&& through == gate.unwrap().address
            }
            &&& launch matches Fp8GegluLaunch::Split { first, gate: through, .. } ==> {
                &&& fp8_address(first, i, c) == through + (i * key.n + c) * 2
                &&& through == gate.unwrap().address
            }
        },
{
}

/// Two split launches run the same second product just where they run the same backend, and each
/// is built for its own number of rows.
pub proof fn lemma_split_backends_differ(
    build: BuildFeatures,
    key: GemmTuningKey,
    plan: Option<PreparedGemmPlan>,
    activation: CudaBuffer,
    plain_weight: Option<CudaBuffer>,
    interleaved_weight: Option<CudaBuffer>,
    gate: Option<CudaBuffer>,
    output: CudaBuffer,
    alpha: Factor,
    output_scale: u32,
    tactic: TacticId,
    other: TacticId,
    result: Result<Fp8GegluLaunch, Error>,
    other_result: Result<Fp8GegluLaunch, Error>,
)
    requires
        call_ensures(
            launch_fp8_geglu_tactic,
            (
                &build,
                &key,
                plan,
                &activation,
                plain_weight,
                interleaved_weight,
                gate,
                &output,
                alpha,
                output_scale,
                tactic,
            ),
            result,
        ),
        call_ensures(
            launch_fp8_geglu_tactic,
            (
                &build,
                &key,
                plan,
                &activation,
                plain_weight,
                interleaved_weight,
                gate,
                &output,
                alpha,
                output_scale,
                other,
            ),
            other_result,
        ),
        result matches Ok(launch) && launch is Split,
        other_result matches Ok(launch) && launch is Split,
    ensures
        (result.unwrap()->Split_tactic == other_result.unwrap()->Split_tactic) <==> tactic.backend
            == other.backend,
        0 <= result.unwrap()->Split_tactic < 4,
        tactic.backend == (match result.unwrap()->Split_tactic {
            0 => TacticBackend::CublasLtCustomSplitGeGluCutlass,
            1 => TacticBackend::CublasLtCustomSplitGeGluCutlass2SmAuto,
            2 => TacticBackend::CublasLtCustomSplitGeGluCutlass2SmStage3,
            _ => TacticBackend::CublasLtCustomSplitGeGluCutlassM522Explicit2Sm,
        }),
        key.m == 522 <==> tactic.backend
            == TacticBackend::CublasLtCustomSplitGeGluCutlassM522Explicit2Sm,
        key.m == 522 || key.m == 778,
        key.n == 32768 && key.k == 2048 && build.cutlass_gemm,
{
}

/// An accepted GeGLU names its own operands and both scales; the weight is read in the
/// layout that it has.
pub proof fn lemma_fp8_geglu_request_names_its_operands(
    ctx: CudaContext,
    activation: Tensor,
    activation_scale: u32,
    weight: Fp8WeightView<'_>,
    output_scale: u32,
    emulated: bool,
    result: Result<Option<Fp8GegluRequest>, Error>,
    reading: spec_fn(u32) -> int,
)
    requires
        call_ensures(
            gemm_fp8_geglu_fused,
            (&ctx, &activation, activation_scale, weight, output_scale, emulated),
            result,
        ),
    ensures
        result matches Ok(Some(request)) ==> {
            let (m, k, n) = (
                activation.dims@[0],
                activation.dims@[1],
                weight.values_e4m3.dims@[1],
            );
            &&& is_key_of(request.key, ctx, m as int, n as int, k as int)
            &&& is_key_of(request.plain_key, ctx, m as int, n as int, k as int)
            &&& request.key.op == GemmOp::Fp8F16 && request.plain_key.op == GemmOp::Fp8F16
            &&& request.key.epilogue == Epilogue::GeGlu
            &&& request.plain_key.epilogue == Epilogue::Plain
            &&& request.key.output_dtype == TuningDType::F8E4M3
            &&& request.plain_key.output_dtype == TuningDType::F16
            &&& request.activation == activation.buffer
            &&& weight.dual_geglu_interleaved ==> request.plain_weight is None
                && request.interleaved_weight == Some(weight.values_e4m3.buffer)
            &&& !weight.dual_geglu_interleaved ==> request.plain_weight == Some(
                weight.values_e4m3.buffer,
            )
            &&& !weight.dual_geglu_interleaved ==> (match weight.dual_geglu_auto_interleaved {
                Some(copy) => request.interleaved_weight == Some(copy.buffer),
                None => request.interleaved_weight is None,
            })
            &&& factor(reading, request.alpha) == reading(activation_scale) * reading(weight.scale)
            &&& request.output_scale == output_scale
            &&& request.rows == m
            &&& 2 * request.cols == n
        },
        result matches Ok(none) ==> (none is None <==> emulated),
        result is Ok <==> {
            let here = Device::Cuda(ctx.device_id);
            &&& activation.dtype == DType::F8E4M3 && weight.values_e4m3.dtype == DType::F8E4M3
            &&& 0 < activation_scale < 0x7f80_0000 && 0 < weight.scale < 0x7f80_0000
            &&& 0 < output_scale < 0x7f80_0000
            &&& activation.dims@.len() == 2 && weight.values_e4m3.dims@.len() == 2
            &&& activation.dims@[1] == weight.values_e4m3.dims@[0]
            &&& weight.values_e4m3.dims@[1] % 2 == 0
            &&& activation.device == here && weight.values_e4m3.device == here
            &&& weight.dual_geglu_auto_interleaved matches Some(copy) ==> copy.dtype
                == DType::F8E4M3 && copy.dims@ == weight.values_e4m3.dims@ && copy.device == here
        },
{
}

/// A row-scaled product adds the bias of its column to `sum_l activation[i, l] *
/// weight[j, l]` times the scale of row `i` and the scale of channel `j`.
pub open spec fn dynamic_entry(
    launch: DynamicFp8Launch,
    memory: spec_fn(int) -> int,
    i: int,
    j: int,
) -> int {
    product_entry(
        matrix(memory, launch.activation as int, 1, launch.dims.k as int),
        transposed(matrix(memory, launch.weight as int, 1, launch.dims.k as int)),
        launch.dims.k as int,
        i,
        j,
    ) * element(memory, launch.activation_scales as int, 4, i) * element(
        memory,
        launch.weight_scales as int,
        4,
        j,
    ) + match launch.bias {
        Some(bias) => element(memory, bias as int, 2, j),
        None => 0,
    }
}

/// The launch of a row-scaled product reads the operands of the call. It is planned
/// exactly where they conform, the device has FP8 cores and the build has the kernel.
pub proof fn lemma_dynamic_fp8_scales_rows_and_channels(
    build: BuildFeatures,
    ctx: CudaContext,
    activation: Tensor,
    activation_scales: Tensor,
    weight: DynamicFp8WeightView<'_>,
    bias: Option<&Tensor>,
    emulated: bool,
    result: Result<DynamicFp8Launch, Error>,
    memory: spec_fn(int) -> int,
    i: int,
    j: int,
)
    requires
        call_ensures(
            gemm_fp8_dynamic_bf16,
            (&build, &ctx, &activation, &activation_scales, weight, bias, emulated),
            result,
        ),
        activation.dims@.len() == 2 ==> activation.dims@[0] <= i32::MAX && activation.dims@[1]
            <= i32::MAX,
        weight.values_e4m3.dims@.len() == 2 ==> weight.values_e4m3.dims@[0] <= i32::MAX,
    ensures
        result matches Ok(launch) ==> {
            let (m, k, n) = (
                activation.dims@[0],
                activation.dims@[1],
                weight.values_e4m3.dims@[0],
            );
            &&& dynamic_entry(launch, memory, i, j) == product_entry(
                matrix(memory, activation.buffer.address as int, 1, k as int),
                transposed(matrix(memory, weight.values_e4m3.buffer.address as int, 1, k as int)),
                k as int,
                i,
                j,
            ) * element(memory, activation_scales.buffer.address as int, 4, i) * element(
                memory,
                weight.channel_scales.buffer.address as int,
                4,
                j,
            ) + match bias {
                Some(bias) => element(memory, bias.buffer.address as int, 2, j),
                None => 0,
            }
            &&& launch.dims.m == m && launch.dims.n == n
            &&& launch.rows == m && launch.cols == n
            &&& launch.output_bytes == m * n * 2
        },
        result is Ok <==> {
            let here = Device::Cuda(ctx.device_id);
            let (a, b) = (activation.dims@, weight.values_e4m3.dims@);
            &&& build.cutlass_gemm && !emulated
            &&& activation.dtype == DType::F8E4M3 && weight.values_e4m3.dtype == DType::F8E4M3
            &&& activation_scales.dtype == DType::F32 && weight.channel_scales.dtype == DType::F32
            &&& a.len() == 2 && b.len() == 2 && a[1] == b[1]
            &&& activation_scales.dims@ =~= seq![a[0]] && weight.channel_scales.dims@ =~= seq![b[0]]
            &&& bias matches Some(bias) ==> bias.dtype == DType::BF16 && bias.dims@ =~= seq![b[0]]
                && bias.device == here
            &&& activation.device == here && activation_scales.device == here
            &&& weight.values_e4m3.device == here && weight.channel_scales.device == here
            &&& b[0] % 16 == 0 && a[1] % 16 == 0
            &&& a[0] * b[0] * 2 <= usize::MAX
        },
{
    let (a, b) = (activation.dims@, weight.values_e4m3.dims@);
    if a.len() == 2 && b.len() == 2 {
        let (m, n) = (a[0], b[0]);
        assert(0 <= m * n) by (nonlinear_arith);
    }
}

/// The entry `(i, j)` of a product with BF16 output.
pub open spec fn bf16_output_entry(
    launch: Fp8Bf16Launch,
    memory: spec_fn(int) -> int,
    reading: spec_fn(u32) -> int,
    i: int,
    j: int,
) -> int {
    factor(reading, launch.alpha) * product_entry(
        matrix(memory, launch.activation as int, 1, launch.dims.k as int),
        matrix(memory, launch.weight as int, 1, launch.dims.n as int),
        launch.dims.k as int,
        i,
        j,
    ) + match launch.bias {
        Some(bias) => element(memory, bias as int, 2, j),
        None => 0,
    }
}

/// A launch with BF16 output is the scaled product of its operands plus `bias`.
pub open spec fn is_bf16_output_product(
    launch: Fp8Bf16Launch,
    activation: Tensor,
    activation_scale: u32,
    weight: Fp8WeightView<'_>,
    bias: int,
    memory: spec_fn(int) -> int,
    reading: spec_fn(u32) -> int,
    i: int,
    j: int,
) -> bool {
    let (m, k, n) = (activation.dims@[0], activation.dims@[1], weight.values_e4m3.dims@[1]);
    &&& bf16_output_entry(launch, memory, reading, i, j) == reading(activation_scale) * reading(weight.scale)
        * product_entry(
        matrix(memory, activation.buffer.address as int, 1, k as int),
        matrix(memory, weight.values_e4m3.buffer.address as int, 1, n as int),
        k as int,
        i,
        j,
    ) + bias
    &&& launch.dims.m == m && launch.dims.n == n && launch.dims.k == k
    &&& launch.rows == m && launch.cols == n
    &&& launch.output_bytes == m * n * 2
}

/// Operands that a product with BF16 output takes.
pub open spec fn bf16_output_operands(
    ctx: CudaContext,
    activation: Tensor,
    activation_scale: u32,
    weight: Fp8WeightView<'_>,
    native: bool,
) -> bool {
    &&& activation.dtype == DType::F8E4M3 && weight.values_e4m3.dtype == DType::F8E4M3
    &&& !weight.dual_geglu_interleaved
    &&& 0 < activation_scale < 0x7f80_0000 && 0 < weight.scale < 0x7f80_0000
    &&& activation.dims@.len() == 2 && weight.values_e4m3.dims@.len() == 2
    &&& activation.dims@[1] == weight.values_e4m3.dims@[0]
    &&& activation.device == Device::Cuda(ctx.device_id)
    &&& weight.values_e4m3.device == Device::Cuda(ctx.device_id)
    &&& native
}

/// A product with BF16 output and no bias.
pub proof fn lemma_fp8_bf16_is_product(
    ctx: CudaContext,
    activation: Tensor,
    activation_scale: u32,
    weight: Fp8WeightView<'_>,
    native: bool,
    may_prepare: bool,
    value: EnvironmentValue,
    result: Result<Fp8Bf16Launch, Error>,
    memory: spec_fn(int) -> int,
    reading: spec_fn(u32) -> int,
    i: int,
    j: int,
)
    requires
        call_ensures(
            gemm_fp8_bf16,
            (&ctx, &activation, activation_scale, weight, native, may_prepare, &value),
            result,
        ),
        activation.dims@.len() == 2 ==> activation.dims@[0] <= i32::MAX && activation.dims@[1]
            <= i32::MAX,
        weight.values_e4m3.dims@.len() == 2 ==> weight.values_e4m3.dims@[1] <= i32::MAX,
        activation.dims@.len() == 2 && weight.values_e4m3.dims@.len() == 2 ==> activation.dims@[0]
            * weight.values_e4m3.dims@[1] * 2 <= usize::MAX,
    ensures
        result matches Ok(launch) ==> is_bf16_output_product(
            launch,
            activation,
            activation_scale,
            weight,
            0,
            memory,
            reading,
            i,
            j,
        ) && launch.bias is None && (launch.prepare is Some <==> may_prepare) && (!may_prepare
            ==> launch.configure is None),
        result is Ok ==> bf16_output_operands(ctx, activation, activation_scale, weight, native),
        bf16_output_operands(ctx, activation, activation_scale, weight, native) && (!may_prepare
            || value is Unset) ==> result is Ok,
{
    if let Ok(launch) = result {
        let (m, n) = (activation.dims@[0], weight.values_e4m3.dims@[1]);
        assert(0 <= m * n) by (nonlinear_arith);
    }
}

/// A product with BF16 output and a bias for each column.
pub proof fn lemma_fp8_bias_bf16_adds_bias(
    ctx: CudaContext,
    activation: Tensor,
    activation_scale: u32,
    weight: Fp8WeightView<'_>,
    bias: Tensor,
    native: bool,
    may_prepare: bool,
    value: EnvironmentValue,
    result: Result<Fp8Bf16Launch, Error>,
    memory: spec_fn(int) -> int,
    reading: spec_fn(u32) -> int,
    i: int,
    j: int,
)
    requires
        call_ensures(
            gemm_fp8_bias_bf16,
            (&ctx, &activation, activation_scale, weight, &bias, native, may_prepare, &value),
            result,
        ),
        activation.dims@.len() == 2 ==> activation.dims@[0] <= i32::MAX && activation.dims@[1]
            <= i32::MAX,
        weight.values_e4m3.dims@.len() == 2 ==> weight.values_e4m3.dims@[1] <= i32::MAX,
        activation.dims@.len() == 2 && weight.values_e4m3.dims@.len() == 2 ==> activation.dims@[0]
            * weight.values_e4m3.dims@[1] * 2 <= usize::MAX,
    ensures
        result matches Ok(launch) ==> is_bf16_output_product(
            launch,
            activation,
            activation_scale,
            weight,
            element(memory, bias.buffer.address as int, 2, j),
            memory,
            reading,
            i,
            j,
        ) && launch.bias is Some && (launch.prepare is Some <==> may_prepare) && (!may_prepare
            ==> launch.configure is None),
        result is Ok ==> {
            &&& bf16_output_operands(ctx, activation, activation_scale, weight, native)
            &&& bias.dtype == DType::BF16 && bias.device == Device::Cuda(ctx.device_id)
            &&& bias.dims@ =~= seq![weight.values_e4m3.dims@[1]]
        },
        bf16_output_operands(ctx, activation, activation_scale, weight, native) && bias.dtype
            == DType::BF16 && bias.device == Device::Cuda(ctx.device_id) && bias.dims@
            =~= seq![weight.values_e4m3.dims@[1]] && (!may_prepare || value is Unset)
            ==> result is Ok,
{
    if let Ok(launch) = result {
        let (m, n) = (activation.dims@[0], weight.values_e4m3.dims@[1]);
        assert(0 <= m * n) by (nonlinear_arith);
    }
}

/// A result is compared as it is, or decoded by its own scale.
pub proof fn lemma_readback_decodes_its_output(
    output: CudaBuffer,
    copy: Option<CudaBuffer>,
    elements: usize,
    dtype: DType,
    scale: u32,
    result: Result<FusedReadback, Error>,
    memory: spec_fn(int) -> int,
    reading: spec_fn(u32) -> int,
    e: int,
)
    requires
        call_ensures(copy_fused_output, (&output, copy, elements, dtype, scale), result),
        reading(0x3f80_0000) == 1,
        elements <= i64::MAX,
    ensures
        result is Ok <==> dtype == DType::F16 || (dtype == DType::F8E4M3 && copy is Some),
        result matches Ok(FusedReadback::Direct { source, elements: count }) ==> dtype == DType::F16
            && source == output.address && count == elements,
        result matches Ok(FusedReadback::Decoded { decode, source, elements: count }) ==> {
            &&& dtype == DType::F8E4M3
            &&& decoded(decode, memory, reading, e) == reading(scale) * element(
                memory,
                output.address as int,
                1,
                e,
            )
            &&& decode.output == copy.unwrap().address && source == copy.unwrap().address
            &&& decode.elements == elements && count == elements
        },
{
    let s = reading(scale);
    assert(s * 1 == s) by (nonlinear_arith);
}

} // verus!
