//! Which kernel runs BF16 attention of a shape.

use super::super::contracts::{
    device_problem, extents_fit, first_of, gpu_ptr, numel, pointers_problem, product,
    require_device, same_dims, tensor_bytes, tensor_fits, tensor_size, unless,
};
use super::composed::{composed_gqa_bf16, composed_plan, composed_shape, ComposedPlan};
use super::fa2::{
    fa2_attention, fa2_attention_causal, fa2_attention_splitkv, fa2_launch, fa2_problem,
    fa2_splitkv_enabled, splitkv_enabled, splitkv_launch, splitkv_problem, AttentionExtents,
    Fa2Kernel, Fa2Launch,
};
use super::features::{AttentionBuild, AttentionSwitches};
use crate::context::CudaContext;
use crate::error::Error;
use crate::types::{DType, Device, Tensor};
use vstd::prelude::*;

verus! {

pub open spec fn all_of(dtype: DType, q: Tensor, k: Tensor, v: Tensor) -> bool {
    q.dtype == dtype && k.dtype == dtype && v.dtype == dtype
}

pub open spec fn devices_problem(expected: Device, q: Tensor, k: Tensor, v: Tensor) -> Option<
    Error,
> {
    first_of(
        device_problem(expected, q.device),
        first_of(device_problem(expected, k.device), device_problem(expected, v.device)),
    )
}

pub const PREFILL_MISMATCH: &'static str = "causal BF16 GQA prefill shape mismatch";

/// Whether a causal prefill has matching extents.
pub open spec fn prefill_matches(q: Tensor, k: Tensor, v: Tensor) -> bool {
    let a = q.dims@;
    let b = k.dims@;
    &&& all_of(DType::BF16, q, k, v)
    &&& a.len() == 3
    &&& b.len() == 3
    &&& v.dims@ == b
    &&& a[0] != 0
    &&& a[0] == b[0]
    &&& a[1] != 0
    &&& b[1] != 0
    &&& a[1] % b[1] == 0
    &&& a[2] != 0
    &&& a[2] == b[2]
}

/// What keeps an extent from the kernel's 32-bit arguments.
pub open spec fn abi_problem(value: usize, text: &'static str) -> Option<Error> {
    if value > i32::MAX {
        Some(Error::Other(text))
    } else {
        None
    }
}

fn abi(value: usize, text: &'static str) -> (result: Result<i32, Error>)
    ensures
        result == unless(abi_problem(value, text), value as i32),
{
    if value > 0x7fff_ffff {
        return Err(Error::Other(text));
    }
    Ok(value as i32)
}

pub const QUERY_LENGTH: &'static str = "causal BF16 GQA query length exceeds i32";

pub const QUERY_HEADS: &'static str = "causal BF16 GQA query head count exceeds i32";

pub const KEY_HEADS: &'static str = "causal BF16 GQA key/value head count exceeds i32";

pub const PREFILL_LSE: &'static str = "causal BF16 GQA LSE size overflow";

pub const PREFILL_LSE_BYTES: &'static str = "causal BF16 GQA LSE byte overflow";

/// Whether the prefill kernel covers a shape.
pub open spec fn prefill_supported(build: AttentionBuild, q: Tensor) -> bool {
    build.has_fa2() && 96 < q.dims@[2] <= 256
}

pub open spec fn prefill_problem(ctx: CudaContext, build: AttentionBuild, q: Tensor, k: Tensor, v: Tensor) -> Option<
    Error,
> {
    if !prefill_matches(q, k, v) {
        Some(Error::Other(PREFILL_MISMATCH))
    } else {
        first_of(
            devices_problem(Device::Cuda(ctx.device_id), q, k, v),
            if !prefill_supported(build, q) {
                None
            } else {
                first_of(
                    abi_problem(q.dims@[0], QUERY_LENGTH),
                    first_of(
                        abi_problem(q.dims@[1], QUERY_HEADS),
                        first_of(
                            abi_problem(k.dims@[1], KEY_HEADS),
                            if q.dims@[0] * q.dims@[1] > usize::MAX {
                                Some(Error::Other(PREFILL_LSE))
                            } else if q.dims@[0] * q.dims@[1] * 4 > usize::MAX {
                                Some(Error::Other(PREFILL_LSE_BYTES))
                            } else {
                                None
                            },
                        ),
                    ),
                )
            },
        )
    }
}

pub open spec fn extents_of(q: Tensor, k: Tensor, key_tokens: usize) -> AttentionExtents {
    AttentionExtents {
        batches: 1,
        query_tokens: q.dims@[0],
        key_tokens,
        query_heads: q.dims@[1],
        kv_heads: k.dims@[1],
        head_dim: q.dims@[2],
    }
}

/// Fixed-shape causal GQA prefill over contiguous BF16 Q/K/V tensors.
///
/// Returns `None` when the shape is unsupported or when BF16 FlashAttention-2
/// is unavailable, so that callers can keep their portable cache path.
pub fn causal_gqa_prefill_bf16(
    ctx: &CudaContext,
    build: &AttentionBuild,
    q: &Tensor,
    k: &Tensor,
    v: &Tensor,
) -> (result: Result<Option<Fa2Launch>, Error>)
    requires
        tensor_fits(*q),
    ensures
        result == unless(
            prefill_problem(*ctx, *build, *q, *k, *v),
            if prefill_supported(*build, *q) {
                Some(fa2_launch(Fa2Kernel::Bf16Causal, *q, *k, *v, extents_of(*q, *k, k.dims@[0])))
            } else {
                None
            },
        ),
{
    if q.dtype != DType::BF16 || k.dtype != DType::BF16 || v.dtype != DType::BF16 || q.dims.len()
        != 3 || k.dims.len() != 3 || !same_dims(&v.dims, &k.dims) || q.dims[0] == 0 || q.dims[0]
        != k.dims[0] || q.dims[1] == 0 || k.dims[1] == 0 || q.dims[1] % k.dims[1] != 0
        || q.dims[2] == 0 || q.dims[2] != k.dims[2] {
        return Err(Error::Other(PREFILL_MISMATCH));
    }
    require_device(ctx, q.device)?;
    require_device(ctx, k.device)?;
    require_device(ctx, v.device)?;
    if !build.fa2() || q.dims[2] <= 96 || q.dims[2] > 256 {
        return Ok(None);
    }
    abi(q.dims[0], QUERY_LENGTH)?;
    abi(q.dims[1], QUERY_HEADS)?;
    abi(k.dims[1], KEY_HEADS)?;
    let elements: usize = match q.dims[0].checked_mul(q.dims[1]) {
        Some(elements) => elements,
        None => {
            return Err(Error::Other(PREFILL_LSE));
        },
    };
    if elements.checked_mul(4).is_none() {
        return Err(Error::Other(PREFILL_LSE_BYTES));
    }
    let extents = AttentionExtents {
        batches: 1,
        query_tokens: q.dims[0],
        key_tokens: k.dims[0],
        query_heads: q.dims[1],
        kv_heads: k.dims[1],
        head_dim: q.dims[2],
    };
    proof {
        assert(q.dims@[1] * q.dims@[0] == q.dims@[0] * q.dims@[1]) by (nonlinear_arith);
    }
    let launch = fa2_attention_causal(q, k, v, &extents)?;
    Ok(Some(launch))
}

#[derive(Clone, Copy, Debug, PartialEq, Eq, Structural)]
pub enum MqaKernel {
    /// `apxinf_static_cublas_mqa_bf16`.
    CublasBf16,
    /// `apxinf_static_cublas_mqa_f16`.
    CublasF16,
    /// `apxinf_static_mqa_bf16`.
    NativeBf16,
}

/// One multi-query attention launch; the output is allocated for it.
#[derive(Clone, Copy, Debug, PartialEq, Eq, Structural)]
pub struct MqaLaunch {
    pub kernel: MqaKernel,
    pub query: usize,
    pub key: usize,
    pub value: usize,
    pub query_tokens: i32,
    pub key_tokens: i32,
    pub heads: i32,
    pub head_dim: i32,
    pub output_bytes: usize,
}

pub open spec fn mqa_launch(kernel: MqaKernel, q: Tensor, k: Tensor, v: Tensor, key_tokens: usize) -> MqaLaunch {
    MqaLaunch {
        kernel,
        query: q.buffer.address,
        key: k.buffer.address,
        value: v.buffer.address,
        query_tokens: q.dims@[0] as i32,
        key_tokens: key_tokens as i32,
        heads: q.dims@[1] as i32,
        head_dim: q.dims@[2] as i32,
        output_bytes: tensor_size(q) as usize,
    }
}

/// Multi-query attention over a contiguous key/value sequence.
pub fn launch_mqa(kernel: MqaKernel, q: &Tensor, k: &Tensor, v: &Tensor, key_tokens: usize) -> (result:
    Result<MqaLaunch, Error>)
    requires
        q.dims@.len() == 3,
        tensor_fits(*q),
    ensures
        result == unless(
            pointers_problem(*q, *k, *v),
            mqa_launch(kernel, *q, *k, *v, key_tokens),
        ),
{
    let query: usize = gpu_ptr(q)?;
    let key: usize = gpu_ptr(k)?;
    let value: usize = gpu_ptr(v)?;
    Ok(
        MqaLaunch {
            kernel,
            query,
            key,
            value,
            query_tokens: q.dims[0] as i32,
            key_tokens: key_tokens as i32,
            heads: q.dims[1] as i32,
            head_dim: q.dims[2] as i32,
            output_bytes: tensor_bytes(q),
        },
    )
}

#[derive(Clone, Copy, Debug, PartialEq, Eq, Structural)]
pub enum MqaRoute {
    Fa2(Fa2Launch),
    Mqa(MqaLaunch),
}

pub const MQA_MISMATCH: &'static str = "static inference BF16 MQA shape mismatch";

/// Whether queries, keys and values of multi-query attention belong together,
/// but for the number of keys.
pub open spec fn mqa_layout(q: Tensor, k: Tensor, v: Tensor, key_tokens: usize) -> bool {
    &&& all_of(DType::BF16, q, k, v)
    &&& q.dims@.len() == 3
    &&& k.dims@.len() >= 2
    &&& v.dims@ == k.dims@
    &&& k.dims@.last() == q.dims@[2]
    &&& key_tokens != 0
}

pub open spec fn mqa_matches(q: Tensor, k: Tensor, v: Tensor, key_tokens: usize) -> bool {
    mqa_layout(q, k, v, key_tokens) && key_tokens <= product(k.dims@) / q.dims@[2] as nat
}

/// The extents of multi-query attention: one key head.
pub open spec fn mqa_extents(q: Tensor, key_tokens: usize) -> AttentionExtents {
    AttentionExtents {
        batches: 1,
        query_tokens: q.dims@[0],
        key_tokens,
        query_heads: q.dims@[1],
        kv_heads: 1,
        head_dim: q.dims@[2],
    }
}

pub open spec fn mqa_splits(switches: AttentionSwitches, q: Tensor, key_tokens: usize) -> bool {
    splitkv_enabled(switches, q.dims@[0], key_tokens, q.dims@[1], 1, q.dims@[2])
}

pub open spec fn mqa_route(
    ctx: CudaContext,
    build: AttentionBuild,
    switches: AttentionSwitches,
    q: Tensor,
    k: Tensor,
    v: Tensor,
    key_tokens: usize,
) -> Result<MqaRoute, Error> {
    let extents = mqa_extents(q, key_tokens);
    if !mqa_matches(q, k, v, key_tokens) {
        Err(Error::Other(MQA_MISMATCH))
    } else if build.fa2_sm80 && mqa_splits(switches, q, key_tokens) {
        unless(
            splitkv_problem(q, k, v, extents),
            MqaRoute::Fa2(splitkv_launch(ctx, build, q, k, v, extents, false)),
        )
    } else if build.fa2_sm80 {
        unless(
            fa2_problem(q, k, v, extents),
            MqaRoute::Fa2(fa2_launch(Fa2Kernel::Bf16, q, k, v, extents)),
        )
    } else {
        let kernel = if build.cutlass_fmha {
            MqaKernel::CublasBf16
        } else {
            MqaKernel::NativeBf16
        };
        unless(
            pointers_problem(q, k, v),
            MqaRoute::Mqa(mqa_launch(kernel, q, k, v, key_tokens)),
        )
    }
}

/// BF16 attention of many query heads over one key head.
pub fn mqa_bf16(
    ctx: &CudaContext,
    build: &AttentionBuild,
    switches: &AttentionSwitches,
    q: &Tensor,
    k: &Tensor,
    v: &Tensor,
    key_tokens: usize,
) -> (result: Result<MqaRoute, Error>)
    requires
        tensor_fits(*q),
        extents_fit(k.dims@),
        mqa_layout(*q, *k, *v, key_tokens) ==> q.dims@[2] != 0,
    ensures
        result == mqa_route(*ctx, *build, *switches, *q, *k, *v, key_tokens),
{
    if q.dtype != DType::BF16 || k.dtype != DType::BF16 || v.dtype != DType::BF16 || q.dims.len()
        != 3 || k.dims.len() < 2 || !same_dims(&v.dims, &k.dims) || k.dims[k.dims.len() - 1]
        != q.dims[2] || key_tokens == 0 {
        return Err(Error::Other(MQA_MISMATCH));
    }
    if key_tokens > numel(k) / q.dims[2] {
        return Err(Error::Other(MQA_MISMATCH));
    }
    if build.fa2_sm80 {
        let extents = AttentionExtents {
            batches: 1,
            query_tokens: q.dims[0],
            key_tokens,
            query_heads: q.dims[1],
            kv_heads: 1,
            head_dim: q.dims[2],
        };
        if fa2_splitkv_enabled(switches, q.dims[0], key_tokens, q.dims[1], 1, q.dims[2]) {
            let launch = fa2_attention_splitkv(ctx, build, q, k, v, &extents, false)?;
            return Ok(MqaRoute::Fa2(launch));
        }
        let launch = fa2_attention(q, k, v, &extents)?;
        return Ok(MqaRoute::Fa2(launch));
    }
    let kernel = if build.cutlass_fmha {
        MqaKernel::CublasBf16
    } else {
        MqaKernel::NativeBf16
    };
    let launch = launch_mqa(kernel, q, k, v, key_tokens)?;
    Ok(MqaRoute::Mqa(launch))
}

#[derive(Clone, Copy, Debug, PartialEq, Eq, Structural)]
pub enum GqaRoute {
    Fa2(Fa2Launch),
    Composed(ComposedPlan),
}

pub const GQA_MISMATCH: &'static str = "static inference causal BF16 GQA shape mismatch";

pub const GQA_BACKEND: &'static str = "causal BF16 GQA requires the FA2 backend";

pub open spec fn gqa_matches(q: Tensor, k: Tensor, v: Tensor, key_tokens: usize) -> bool {
    let a = q.dims@;
    let b = k.dims@;
    &&& all_of(DType::BF16, q, k, v)
    &&& a.len() == 3
    &&& b.len() == 3
    &&& v.dims@ == b
    &&& b[0] >= key_tokens
    &&& b[2] == a[2]
    &&& b[1] != 0
    &&& a[1] % b[1] == 0
    &&& key_tokens >= a[0]
}

/// The ways in which causal attention is run.
#[derive(Clone, Copy, Debug, PartialEq, Eq, Structural)]
pub enum GqaChoice {
    Causal,
    Split { causal: bool },
    Composed,
}

/// The head-256 specialisation runs a complete prefill and a single-token
/// decode; other head-256 shapes are composed.
pub open spec fn gqa_choice(
    build: AttentionBuild,
    switches: AttentionSwitches,
    q: Tensor,
    k: Tensor,
    key_tokens: usize,
) -> GqaChoice {
    let a = q.dims@;
    if a[2] == 256 {
        if build.fa2_head_special && a[0] == key_tokens && a[0] > 1
            && !switches.composed_prefill {
            GqaChoice::Causal
        } else if build.fa2_head_special && a[0] == 1 && !switches.composed_decode {
            GqaChoice::Split { causal: false }
        } else {
            GqaChoice::Composed
        }
    } else if splitkv_enabled(switches, a[0], key_tokens, a[1], k.dims@[1], a[2]) {
        GqaChoice::Split { causal: true }
    } else {
        GqaChoice::Causal
    }
}

pub fn choose_gqa(
    build: &AttentionBuild,
    switches: &AttentionSwitches,
    q: &Tensor,
    k: &Tensor,
    key_tokens: usize,
) -> (choice: GqaChoice)
    requires
        q.dims@.len() == 3,
        k.dims@.len() == 3,
    ensures
        choice == gqa_choice(*build, *switches, *q, *k, key_tokens),
{
    let rows: usize = q.dims[0];
    if q.dims[2] == 256 {
        if build.fa2_head_special && rows == key_tokens && rows > 1 && !switches.composed_prefill {
            GqaChoice::Causal
        } else if build.fa2_head_special && rows == 1 && !switches.composed_decode {
            GqaChoice::Split { causal: false }
        } else {
            GqaChoice::Composed
        }
    } else if fa2_splitkv_enabled(
        switches,
        rows,
        key_tokens,
        q.dims[1],
        k.dims[1],
        q.dims[2],
    ) {
        GqaChoice::Split { causal: true }
    } else {
        GqaChoice::Causal
    }
}

pub open spec fn gqa_route(
    ctx: CudaContext,
    build: AttentionBuild,
    switches: AttentionSwitches,
    q: Tensor,
    k: Tensor,
    v: Tensor,
    key_tokens: usize,
) -> Result<GqaRoute, Error> {
    let extents = extents_of(q, k, key_tokens);
    if !gqa_matches(q, k, v, key_tokens) {
        Err(Error::Other(GQA_MISMATCH))
    } else if !build.has_fa2() {
        Err(Error::Other(GQA_BACKEND))
    } else {
        match gqa_choice(build, switches, q, k, key_tokens) {
            GqaChoice::Causal => unless(
                pointers_problem(q, k, v),
                GqaRoute::Fa2(fa2_launch(Fa2Kernel::Bf16Causal, q, k, v, extents)),
            ),
            GqaChoice::Split { causal } => unless(
                splitkv_problem(q, k, v, extents),
                GqaRoute::Fa2(splitkv_launch(ctx, build, q, k, v, extents, causal)),
            ),
            GqaChoice::Composed => Ok(GqaRoute::Composed(composed_plan(q, k, v, key_tokens, true))),
        }
    }
}

/// Causal grouped-query attention over a BF16 key/value sequence whose last
/// rows belong to the queries.
pub fn causal_gqa_bf16(
    ctx: &CudaContext,
    build: &AttentionBuild,
    switches: &AttentionSwitches,
    q: &Tensor,
    k: &Tensor,
    v: &Tensor,
    key_tokens: usize,
) -> (result: Result<GqaRoute, Error>)
    requires
        tensor_fits(*q),
        gqa_matches(*q, *k, *v, key_tokens) && build.has_fa2() ==> match gqa_choice(
            *build,
            *switches,
            *q,
            *k,
            key_tokens,
        ) {
            GqaChoice::Causal => q.dims@[1] * q.dims@[0] * 4 <= usize::MAX,
            GqaChoice::Split { .. } => true,
            GqaChoice::Composed => composed_shape(*q, *k, key_tokens, true).valid(),
        },
    ensures
        result == gqa_route(*ctx, *build, *switches, *q, *k, *v, key_tokens),
{
    if q.dtype != DType::BF16 || k.dtype != DType::BF16 || v.dtype != DType::BF16 || q.dims.len()
        != 3 || k.dims.len() != 3 || !same_dims(&v.dims, &k.dims) || k.dims[0] < key_tokens
        || k.dims[2] != q.dims[2] || k.dims[1] == 0 || q.dims[1] % k.dims[1] != 0 || key_tokens
        < q.dims[0] {
        return Err(Error::Other(GQA_MISMATCH));
    }
    if !build.fa2() {
        return Err(Error::Other(GQA_BACKEND));
    }
    let extents = AttentionExtents {
        batches: 1,
        query_tokens: q.dims[0],
        key_tokens,
        query_heads: q.dims[1],
        kv_heads: k.dims[1],
        head_dim: q.dims[2],
    };
    match choose_gqa(build, switches, q, k, key_tokens) {
        GqaChoice::Causal => {
            let launch = fa2_attention_causal(q, k, v, &extents)?;
            Ok(GqaRoute::Fa2(launch))
        },
        GqaChoice::Split { causal } => {
            let launch = fa2_attention_splitkv(ctx, build, q, k, v, &extents, causal)?;
            Ok(GqaRoute::Fa2(launch))
        },
        GqaChoice::Composed => Ok(GqaRoute::Composed(composed_gqa_bf16(q, k, v, key_tokens, true))),
    }
}

/// An unmasked split serves causal attention only where one query row is left:
/// the last row, which sees every key.
pub proof fn lemma_unmasked_split_has_one_row(
    build: AttentionBuild,
    switches: AttentionSwitches,
    q: Tensor,
    k: Tensor,
    key_tokens: usize,
)
    requires
        gqa_choice(build, switches, q, k, key_tokens) == (GqaChoice::Split { causal: false }),
    ensures
        q.dims@[0] == 1,
{
}

/// One multi-head attention launch over batches of equal length; the output is
/// allocated for it.
#[derive(Clone, Copy, Debug, PartialEq, Eq, Structural)]
pub struct MhaLaunch {
    pub query: usize,
    pub key: usize,
    pub value: usize,
    pub batches: i32,
    pub tokens: i32,
    pub heads: i32,
    pub head_dim: i32,
    pub output_bytes: usize,
}

#[derive(Clone, Copy, Debug, PartialEq, Eq, Structural)]
pub enum MhaRoute {
    Fa2(Fa2Launch),
    /// `apxinf_static_cutlass_mha_bf16`, after
    /// `apxinf_static_prepare_cutlass_mha_bf16` where `prepare` is set.
    Cutlass { launch: MhaLaunch, prepare: bool },
    /// `apxinf_static_mha_bf16`.
    Native(MhaLaunch),
    /// `apxinf_static_mha_flash_f16`.
    FlashF16(MhaLaunch),
}

pub const MHA_MISMATCH: &'static str = "static inference BF16 MHA shape mismatch";

/// Whether queries, keys and values are equal `[tokens, heads, head_dim]`
/// tensors that divide into batches.
pub open spec fn mha_matches(dtype: DType, q: Tensor, k: Tensor, v: Tensor, tokens_per_batch: usize) -> bool {
    &&& all_of(dtype, q, k, v)
    &&& q.dims@.len() == 3
    &&& k.dims@ == q.dims@
    &&& v.dims@ == q.dims@
    &&& q.dims@[2] <= 256
    &&& tokens_per_batch != 0
    &&& q.dims@[0] % tokens_per_batch == 0
}

pub fn check_mha(dtype: DType, q: &Tensor, k: &Tensor, v: &Tensor, tokens_per_batch: usize) -> (result:
    bool)
    ensures
        result == mha_matches(dtype, *q, *k, *v, tokens_per_batch),
{
    q.dtype == dtype && k.dtype == dtype && v.dtype == dtype && q.dims.len() == 3 && same_dims(
        &k.dims,
        &q.dims,
    ) && same_dims(&v.dims, &q.dims) && q.dims[2] <= 256 && tokens_per_batch != 0 && q.dims[0]
        % tokens_per_batch == 0
}

pub open spec fn mha_launch(q: Tensor, k: Tensor, v: Tensor, tokens_per_batch: usize) -> MhaLaunch {
    MhaLaunch {
        query: q.buffer.address,
        key: k.buffer.address,
        value: v.buffer.address,
        batches: (q.dims@[0] / tokens_per_batch) as i32,
        tokens: tokens_per_batch as i32,
        heads: q.dims@[1] as i32,
        head_dim: q.dims@[2] as i32,
        output_bytes: tensor_size(q) as usize,
    }
}

pub fn launch_mha(q: &Tensor, k: &Tensor, v: &Tensor, tokens_per_batch: usize) -> (result: Result<
    MhaLaunch,
    Error,
>)
    requires
        q.dims@.len() == 3,
        tokens_per_batch != 0,
        tensor_fits(*q),
    ensures
        result == unless(
            pointers_problem(*q, *k, *v),
            mha_launch(*q, *k, *v, tokens_per_batch),
        ),
{
    let query: usize = gpu_ptr(q)?;
    let key: usize = gpu_ptr(k)?;
    let value: usize = gpu_ptr(v)?;
    Ok(
        MhaLaunch {
            query,
            key,
            value,
            batches: (q.dims[0] / tokens_per_batch) as i32,
            tokens: tokens_per_batch as i32,
            heads: q.dims[1] as i32,
            head_dim: q.dims[2] as i32,
            output_bytes: tensor_bytes(q),
        },
    )
}

/// The extents of attention inside equal batches.
pub open spec fn mha_extents(q: Tensor, tokens_per_batch: usize) -> AttentionExtents {
    AttentionExtents {
        batches: q.dims@[0] / tokens_per_batch,
        query_tokens: tokens_per_batch,
        key_tokens: tokens_per_batch,
        query_heads: q.dims@[1],
        kv_heads: q.dims@[1],
        head_dim: q.dims@[2],
    }
}

/// The one shape that the fused vision kernels are compiled for.
pub open spec fn is_siglip(q: Tensor, tokens_per_batch: usize) -> bool {
    tokens_per_batch == 256 && q.dims@[1] == 16 && q.dims@[2] == 72
}

pub open spec fn mha_route(
    build: AttentionBuild,
    may_prepare: bool,
    q: Tensor,
    k: Tensor,
    v: Tensor,
    tokens_per_batch: usize,
) -> Result<MhaRoute, Error> {
    let extents = mha_extents(q, tokens_per_batch);
    if !mha_matches(DType::BF16, q, k, v, tokens_per_batch) {
        Err(Error::Other(MHA_MISMATCH))
    } else if build.has_fa2() {
        unless(
            fa2_problem(q, k, v, extents),
            MhaRoute::Fa2(fa2_launch(Fa2Kernel::Bf16, q, k, v, extents)),
        )
    } else if build.cutlass_fmha && is_siglip(q, tokens_per_batch) {
        unless(
            pointers_problem(q, k, v),
            MhaRoute::Cutlass {
                launch: mha_launch(q, k, v, tokens_per_batch),
                prepare: may_prepare,
            },
        )
    } else {
        unless(
            pointers_problem(q, k, v),
            MhaRoute::Native(mha_launch(q, k, v, tokens_per_batch)),
        )
    }
}

/// BF16 multi-head attention inside batches of `tokens_per_batch` rows.
///
/// `may_prepare` says that native resources may be installed now.
pub fn mha_bf16(
    build: &AttentionBuild,
    may_prepare: bool,
    q: &Tensor,
    k: &Tensor,
    v: &Tensor,
    tokens_per_batch: usize,
) -> (result: Result<MhaRoute, Error>)
    requires
        tensor_fits(*q),
    ensures
        result == mha_route(*build, may_prepare, *q, *k, *v, tokens_per_batch),
{
    if !check_mha(DType::BF16, q, k, v, tokens_per_batch) {
        return Err(Error::Other(MHA_MISMATCH));
    }
    if build.fa2() {
        let extents = AttentionExtents {
            batches: q.dims[0] / tokens_per_batch,
            query_tokens: tokens_per_batch,
            key_tokens: tokens_per_batch,
            query_heads: q.dims[1],
            kv_heads: q.dims[1],
            head_dim: q.dims[2],
        };
        let launch = fa2_attention(q, k, v, &extents)?;
        return Ok(MhaRoute::Fa2(launch));
    }
    let launch = launch_mha(q, k, v, tokens_per_batch)?;
    if build.cutlass_fmha && tokens_per_batch == 256 && q.dims[1] == 16 && q.dims[2] == 72 {
        Ok(MhaRoute::Cutlass { launch, prepare: may_prepare })
    } else {
        Ok(MhaRoute::Native(launch))
    }
}

pub const FMHA_PREPARATION: &'static str = "CUTLASS BF16 FMHA resource preparation";

pub const FMHA_EXECUTION: &'static str = "CUTLASS BF16 FMHA execution";

/// What the status of a fused multi-head attention call means.
pub fn check_fmha(prepared: bool, status: i32) -> (result: Result<(), Error>)
    ensures
        result == (if status == 0 {
            Ok::<(), Error>(())
        } else {
            Err(
                Error::Native {
                    call: if prepared {
                        FMHA_EXECUTION
                    } else {
                        FMHA_PREPARATION
                    },
                    status,
                },
            )
        }),
{
    if status == 0 {
        return Ok(());
    }
    let call = if prepared {
        FMHA_EXECUTION
    } else {
        FMHA_PREPARATION
    };
    Err(Error::Native { call, status })
}

} // verus!
