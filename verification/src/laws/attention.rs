//! Fused attention.
//!
//! The softmax is any function of the scores of a row and of the number under whose
//! root they are divided.

use super::memory::{element, inner, row};
use super::rows::{stackable, stacks};
use crate::context::CudaContext;
use crate::error::Error;
use crate::kernels::attention::bf16::{
    causal_gqa_bf16, causal_gqa_prefill_bf16, choose_gqa, mha_bf16, mqa_bf16, GqaChoice, GqaRoute,
    MhaLaunch, MhaRoute, MqaKernel, MqaLaunch, MqaRoute,
};
use crate::kernels::attention::dense::{
    noncausal, noncausal_strided_qkv, vision, DenseRoute, PortableLaunch, StridedLaunch,
    VisionKernel, VisionLaunch,
};
use crate::kernels::attention::fa2::{
    fa2_attention, fa2_attention_causal, fa2_attention_f16, fa2_attention_splitkv,
    fa2_splitkv_enabled, lemma_splits_have_memory, max_splits, split_count, AttentionExtents,
    Fa2Kernel, Fa2Launch,
};
use crate::kernels::attention::features::{AttentionBuild, AttentionSwitches};
use crate::kernels::attention::fp16::{
    cublas_mqa_f16, fa2_mqa_f16, mha_f16, mha_packed_qkv_bias_f16, mqa_cached_f16, mqa_f16,
    mqa_f16_e4m3_522, mqa_prefix_suffix_f16, DirectE4m3Launch, PackedRoute, PrefixSuffix,
};
use crate::kernels::attention::qkv::{split_qkv_bias_f16, SplitBiasLaunch};
use crate::kernels::contracts::{product, tensor_size};
use crate::kernels::elementwise::{bias_f16, BiasLaunch};
use crate::types::{dtype_size, DType, Device, Tensor};
use vstd::prelude::*;

verus! {

/// The keys that a row sees: all of them, or those up to its own, which is that of the
/// last row for the last key.
pub open spec fn visible(causal: bool, query_tokens: int, key_tokens: int, t: int) -> int {
    if causal {
        key_tokens - query_tokens + t + 1
    } else {
        key_tokens
    }
}

/// Element `c` of row `t` of head `h` in batch `b`, for queries `[batches, query_tokens,
/// query_heads, head_dim]` and keys and values `[batches, key_tokens, kv_heads,
/// head_dim]` of two-byte elements: the values that the row sees, weighed by the softmax
/// of its scores. Consecutive query heads share a key head.
pub open spec fn attended(
    memory: spec_fn(int) -> int,
    soft: spec_fn(Seq<int>, int) -> Seq<int>,
    query: int,
    key: int,
    value: int,
    query_tokens: int,
    key_tokens: int,
    query_heads: int,
    kv_heads: int,
    head_dim: int,
    scale_dim: int,
    keys: int,
    b: int,
    t: int,
    h: int,
    c: int,
) -> int {
    let g = h / (query_heads / kv_heads);
    let q = row(memory, query, 2, ((b * query_tokens + t) * query_heads + h) * head_dim, head_dim);
    let scores = Seq::new(
        keys as nat,
        |j: int|
            inner(
                q,
                row(memory, key, 2, ((b * key_tokens + j) * kv_heads + g) * head_dim, head_dim),
            ),
    );
    inner(
        soft(scores, scale_dim),
        Seq::new(
            keys as nat,
            |j: int|
                element(memory, value, 2, ((b * key_tokens + j) * kv_heads + g) * head_dim + c),
        ),
    )
}

/// Attention over the tensors of a call.
pub open spec fn attended_by(
    memory: spec_fn(int) -> int,
    soft: spec_fn(Seq<int>, int) -> Seq<int>,
    q: Tensor,
    k: Tensor,
    v: Tensor,
    query_tokens: int,
    key_tokens: int,
    query_heads: int,
    kv_heads: int,
    head_dim: int,
    causal: bool,
    b: int,
    t: int,
    h: int,
    c: int,
) -> int {
    attended(
        memory,
        soft,
        q.buffer.address as int,
        k.buffer.address as int,
        v.buffer.address as int,
        query_tokens,
        key_tokens,
        query_heads,
        kv_heads,
        head_dim,
        head_dim,
        visible(causal, query_tokens, key_tokens, t),
        b,
        t,
        h,
        c,
    )
}

/// Whether a kernel masks keys behind the row.
pub open spec fn is_causal(kernel: Fa2Kernel) -> bool {
    kernel == Fa2Kernel::Bf16Causal || kernel == Fa2Kernel::Bf16CausalSplit
}

/// What a FlashAttention-2 launch computes.
pub open spec fn fa2_entry(
    launch: Fa2Launch,
    memory: spec_fn(int) -> int,
    soft: spec_fn(Seq<int>, int) -> Seq<int>,
    b: int,
    t: int,
    h: int,
    c: int,
) -> int {
    attended(
        memory,
        soft,
        launch.query as int,
        launch.key as int,
        launch.value as int,
        launch.query_tokens as int,
        launch.key_tokens as int,
        launch.query_heads as int,
        launch.kv_heads as int,
        launch.head_dim as int,
        launch.scale_dim as int,
        visible(is_causal(launch.kernel), launch.query_tokens as int, launch.key_tokens as int, t),
        b,
        t,
        h,
        c,
    )
}

/// What a multi-query launch computes: one key head.
pub open spec fn mqa_entry(
    launch: MqaLaunch,
    memory: spec_fn(int) -> int,
    soft: spec_fn(Seq<int>, int) -> Seq<int>,
    t: int,
    h: int,
    c: int,
) -> int {
    attended(
        memory,
        soft,
        launch.query as int,
        launch.key as int,
        launch.value as int,
        launch.query_tokens as int,
        launch.key_tokens as int,
        launch.heads as int,
        1,
        launch.head_dim as int,
        launch.head_dim as int,
        launch.key_tokens as int,
        0,
        t,
        h,
        c,
    )
}

/// What a multi-head launch computes: a key head for every query head.
pub open spec fn mha_entry(
    launch: MhaLaunch,
    memory: spec_fn(int) -> int,
    soft: spec_fn(Seq<int>, int) -> Seq<int>,
    b: int,
    t: int,
    h: int,
    c: int,
) -> int {
    attended(
        memory,
        soft,
        launch.query as int,
        launch.key as int,
        launch.value as int,
        launch.tokens as int,
        launch.tokens as int,
        launch.heads as int,
        launch.heads as int,
        launch.head_dim as int,
        launch.head_dim as int,
        launch.tokens as int,
        b,
        t,
        h,
        c,
    )
}

/// Extents that a kernel takes as 32-bit arguments.
pub open spec fn narrow(extents: AttentionExtents) -> bool {
    &&& extents.batches <= i32::MAX
    &&& extents.query_tokens <= i32::MAX
    &&& extents.key_tokens <= i32::MAX
    &&& extents.query_heads <= i32::MAX
    &&& extents.kv_heads <= i32::MAX
    &&& extents.head_dim <= i32::MAX
}

/// Three tensors in device memory.
pub open spec fn resident(q: Tensor, k: Tensor, v: Tensor) -> bool {
    q.device is Cuda && k.device is Cuda && v.device is Cuda
}

/// A launch is attention over the tensors of a call with the extents of the call, masked
/// or not, with room for the output and for one 32-bit float per row and head.
pub open spec fn is_attention(
    launch: Fa2Launch,
    q: Tensor,
    k: Tensor,
    v: Tensor,
    extents: AttentionExtents,
    causal: bool,
    memory: spec_fn(int) -> int,
    soft: spec_fn(Seq<int>, int) -> Seq<int>,
    b: int,
    t: int,
    h: int,
    c: int,
) -> bool {
    &&& fa2_entry(launch, memory, soft, b, t, h, c) == attended_by(
        memory,
        soft,
        q,
        k,
        v,
        extents.query_tokens as int,
        extents.key_tokens as int,
        extents.query_heads as int,
        extents.kv_heads as int,
        extents.head_dim as int,
        causal,
        b,
        t,
        h,
        c,
    )
    &&& launch.batches == extents.batches
    &&& launch.query_tokens == extents.query_tokens
    &&& launch.key_tokens == extents.key_tokens
    &&& launch.query_heads == extents.query_heads
    &&& launch.kv_heads == extents.kv_heads
    &&& launch.head_dim == extents.head_dim
    &&& launch.scale_dim == extents.head_dim
    &&& launch.output_bytes == product(q.dims@) * dtype_size(q.dtype)
    &&& launch.lse_bytes == extents.batches * extents.query_heads * extents.query_tokens * 4
}

/// The log-sum-exp values of a call have a size.
pub open spec fn lse_fits(extents: AttentionExtents) -> bool {
    &&& extents.batches * extents.query_heads <= usize::MAX
    &&& extents.batches * extents.query_heads * extents.query_tokens * 4 <= usize::MAX
}

proof fn lemma_lse(extents: AttentionExtents)
    ensures
        0 <= extents.batches * extents.query_heads,
        0 <= extents.batches * extents.query_heads * extents.query_tokens,
{
    let rows = extents.batches * extents.query_heads;
    assert(0 <= rows) by (nonlinear_arith)
        requires
            rows == extents.batches * extents.query_heads,
            extents.batches >= 0,
            extents.query_heads >= 0,
    ;
    assert(0 <= rows * extents.query_tokens) by (nonlinear_arith)
        requires
            0 <= rows,
            extents.query_tokens >= 0,
    ;
}

/// Full attention over BF16 heads. It is planned exactly where the tensors are in device
/// memory and the log-sum-exp values have a size.
pub proof fn lemma_fa2_attention_attends(
    q: Tensor,
    k: Tensor,
    v: Tensor,
    extents: AttentionExtents,
    result: Result<Fa2Launch, Error>,
    memory: spec_fn(int) -> int,
    soft: spec_fn(Seq<int>, int) -> Seq<int>,
    b: int,
    t: int,
    h: int,
    c: int,
)
    requires
        call_ensures(fa2_attention, (&q, &k, &v, &extents), result),
        narrow(extents),
        tensor_size(q) <= usize::MAX,
    ensures
        result matches Ok(launch) ==> {
            &&& is_attention(launch, q, k, v, extents, false, memory, soft, b, t, h, c)
            &&& launch.kernel == Fa2Kernel::Bf16
            &&& launch.split is None
        },
        result is Ok <==> resident(q, k, v) && lse_fits(extents),
{
    lemma_lse(extents);
}

/// Full attention over FP16 heads. It is planned exactly where the tensors are in device
/// memory and the log-sum-exp values have a size.
pub proof fn lemma_fa2_attention_f16_attends(
    q: Tensor,
    k: Tensor,
    v: Tensor,
    extents: AttentionExtents,
    result: Result<Fa2Launch, Error>,
    memory: spec_fn(int) -> int,
    soft: spec_fn(Seq<int>, int) -> Seq<int>,
    b: int,
    t: int,
    h: int,
    c: int,
)
    requires
        call_ensures(fa2_attention_f16, (&q, &k, &v, &extents), result),
        narrow(extents),
        tensor_size(q) <= usize::MAX,
    ensures
        result matches Ok(launch) ==> {
            &&& is_attention(launch, q, k, v, extents, false, memory, soft, b, t, h, c)
            &&& launch.kernel == Fa2Kernel::F16
            &&& launch.split is None
        },
        result is Ok <==> resident(q, k, v) && lse_fits(extents),
{
    lemma_lse(extents);
}

/// Causal attention over BF16 heads of one batch.
pub proof fn lemma_fa2_attention_causal_attends(
    q: Tensor,
    k: Tensor,
    v: Tensor,
    extents: AttentionExtents,
    result: Result<Fa2Launch, Error>,
    memory: spec_fn(int) -> int,
    soft: spec_fn(Seq<int>, int) -> Seq<int>,
    t: int,
    h: int,
    c: int,
)
    requires
        call_ensures(fa2_attention_causal, (&q, &k, &v, &extents), result),
        narrow(extents),
        tensor_size(q) <= usize::MAX,
        extents.batches == 1,
        lse_fits(extents),
    ensures
        result matches Ok(launch) ==> {
            &&& is_attention(launch, q, k, v, extents, true, memory, soft, 0, t, h, c)
            &&& launch.kernel == Fa2Kernel::Bf16Causal
            &&& launch.split is None
        },
        result is Ok <==> resident(q, k, v),
{
    lemma_lse(extents);
}

/// Attention over BF16 heads that is split along the keys: what comes out is what a
/// single launch computes, and each part has room for its partial results.
pub proof fn lemma_split_attention_attends(
    ctx: CudaContext,
    build: AttentionBuild,
    q: Tensor,
    k: Tensor,
    v: Tensor,
    extents: AttentionExtents,
    causal: bool,
    result: Result<Fa2Launch, Error>,
    memory: spec_fn(int) -> int,
    soft: spec_fn(Seq<int>, int) -> Seq<int>,
    b: int,
    t: int,
    h: int,
    c: int,
)
    requires
        call_ensures(
            fa2_attention_splitkv,
            (&ctx, &build, &q, &k, &v, &extents, causal),
            result,
        ),
        narrow(extents),
        tensor_size(q) <= usize::MAX,
        extents.key_tokens > 0,
        extents.kv_heads > 0,
    ensures
        result matches Ok(launch) ==> {
            &&& is_attention(launch, q, k, v, extents, causal, memory, soft, b, t, h, c)
            &&& launch.kernel == Fa2Kernel::Bf16Split || launch.kernel == Fa2Kernel::Bf16CausalSplit
            &&& launch.split matches Some(split) && {
                &&& split.splits >= 1
                &&& split.splits * (extents.batches * extents.query_heads * extents.query_tokens)
                    * 4 <= split.lse_accum_bytes
                &&& split.splits * (extents.batches * extents.query_tokens * extents.query_heads
                    * extents.head_dim) * 4 <= split.o_accum_bytes
            }
        },
        result is Ok ==> resident(q, k, v) && lse_fits(extents),
{
    lemma_lse(extents);
    lemma_splits_have_memory(ctx, build, extents);
    let s = split_count(ctx, build, extents);
    let most = max_splits(extents);
    let lse = extents.batches * extents.query_heads * extents.query_tokens;
    let (a, r, p, d) = (
        extents.batches as int,
        extents.query_tokens as int,
        extents.query_heads as int,
        extents.head_dim as int,
    );
    let out = a * r * p * d;
    assert(0 <= s * lse <= most * lse) by (nonlinear_arith)
        requires
            1 <= s <= most,
            0 <= lse,
    ;
    assert(0 <= a * r) by (nonlinear_arith)
        requires
            0 <= a,
            0 <= r,
    ;
    assert(0 <= a * r * p) by (nonlinear_arith)
        requires
            0 <= a * r,
            0 <= p,
    ;
    assert(0 <= out) by (nonlinear_arith)
        requires
            0 <= a * r * p,
            0 <= d,
            out == a * r * p * d,
    ;
    assert(0 <= s * out <= most * out) by (nonlinear_arith)
        requires
            1 <= s <= most,
            0 <= out,
    ;
    assert(most * out == most * a * r * p * d) by (nonlinear_arith)
        requires
            out == a * r * p * d,
    ;
}

/// The extents of a `[tokens, heads, head_dim]` query over keys of `kv_heads` heads.
pub open spec fn single_batch(q: Tensor, key_tokens: int, kv_heads: int) -> AttentionExtents {
    AttentionExtents {
        batches: 1,
        query_tokens: q.dims@[0],
        key_tokens: key_tokens as usize,
        query_heads: q.dims@[1],
        kv_heads: kv_heads as usize,
        head_dim: q.dims@[2],
    }
}

/// Extents of a tensor that a kernel takes as 32-bit arguments.
pub open spec fn narrow_dims(q: Tensor) -> bool {
    forall|i: int| 0 <= i < q.dims@.len() ==> #[trigger] q.dims@[i] <= i32::MAX
}

/// Causal prefill: a launch is causal attention of a prompt over itself, where there is
/// one.
pub proof fn lemma_prefill_attends(
    ctx: CudaContext,
    build: AttentionBuild,
    q: Tensor,
    k: Tensor,
    v: Tensor,
    result: Result<Option<Fa2Launch>, Error>,
    memory: spec_fn(int) -> int,
    soft: spec_fn(Seq<int>, int) -> Seq<int>,
    t: int,
    h: int,
    c: int,
)
    requires
        call_ensures(causal_gqa_prefill_bf16, (&ctx, &build, &q, &k, &v), result),
        tensor_size(q) <= usize::MAX,
    ensures
        result matches Ok(Some(launch)) ==> {
            &&& is_attention(
                launch,
                q,
                k,
                v,
                single_batch(q, q.dims@[0] as int, k.dims@[1] as int),
                true,
                memory,
                soft,
                0,
                t,
                h,
                c,
            )
            &&& launch.split is None
        },
        result matches Ok(found) ==> (found is Some <==> (build.fa2_sm80 || build.fa2_f16_sm100)
            && 96 < q.dims@[2] <= 256),
        result is Ok ==> {
            let here = Device::Cuda(ctx.device_id);
            &&& q.dtype == DType::BF16 && k.dtype == DType::BF16 && v.dtype == DType::BF16
            &&& q.device == here && k.device == here && v.device == here
            &&& q.dims@.len() == 3 && k.dims@.len() == 3 && v.dims@ == k.dims@
            &&& 0 < q.dims@[0] == k.dims@[0]
            &&& 0 < q.dims@[2] == k.dims@[2]
            &&& 0 < k.dims@[1] && q.dims@[1] > 0 && q.dims@[1] as int % k.dims@[1] as int == 0
        },
{
    if let Ok(Some(launch)) = result {
        let extents = single_batch(q, q.dims@[0] as int, k.dims@[1] as int);
        lemma_lse(extents);
        let (s, n) = (q.dims@[0] as int, q.dims@[1] as int);
        assert(1 * n * s == s * n) by (nonlinear_arith);
    }
}

/// A multi-query launch is attention of the query heads over the one key head.
pub open spec fn is_mqa(
    launch: MqaLaunch,
    q: Tensor,
    k: Tensor,
    v: Tensor,
    key_tokens: int,
    memory: spec_fn(int) -> int,
    soft: spec_fn(Seq<int>, int) -> Seq<int>,
    t: int,
    h: int,
    c: int,
) -> bool {
    &&& mqa_entry(launch, memory, soft, t, h, c) == attended_by(
        memory,
        soft,
        q,
        k,
        v,
        q.dims@[0] as int,
        key_tokens,
        q.dims@[1] as int,
        1,
        q.dims@[2] as int,
        false,
        0,
        t,
        h,
        c,
    )
    &&& launch.query_tokens == q.dims@[0]
    &&& launch.heads == q.dims@[1]
    &&& launch.output_bytes == product(q.dims@) * dtype_size(q.dtype)
}

/// BF16 multi-query attention, whichever kernel runs it.
pub proof fn lemma_mqa_bf16_attends(
    ctx: CudaContext,
    build: AttentionBuild,
    switches: AttentionSwitches,
    q: Tensor,
    k: Tensor,
    v: Tensor,
    key_tokens: usize,
    result: Result<MqaRoute, Error>,
    memory: spec_fn(int) -> int,
    soft: spec_fn(Seq<int>, int) -> Seq<int>,
    t: int,
    h: int,
    c: int,
)
    requires
        call_ensures(mqa_bf16, (&ctx, &build, &switches, &q, &k, &v, key_tokens), result),
        tensor_size(q) <= usize::MAX,
        narrow_dims(q),
        key_tokens <= i32::MAX,
    ensures
        result matches Ok(MqaRoute::Fa2(launch)) ==> is_attention(
            launch,
            q,
            k,
            v,
            single_batch(q, key_tokens as int, 1),
            false,
            memory,
            soft,
            0,
            t,
            h,
            c,
        ) && build.fa2_sm80,
        result matches Ok(MqaRoute::Mqa(launch)) ==> is_mqa(
            launch,
            q,
            k,
            v,
            key_tokens as int,
            memory,
            soft,
            t,
            h,
            c,
        ) && !build.fa2_sm80 && launch.kernel != MqaKernel::CublasF16 && (launch.kernel
            == MqaKernel::CublasBf16 <==> build.cutlass_fmha),
        result is Ok ==> {
            &&& q.dtype == DType::BF16 && k.dtype == DType::BF16 && v.dtype == DType::BF16
            &&& resident(q, k, v)
            &&& q.dims@.len() == 3 && k.dims@.len() >= 2 && v.dims@ == k.dims@
            &&& k.dims@[k.dims@.len() - 1] == q.dims@[2]
            &&& 0 < key_tokens <= product(k.dims@) / q.dims@[2] as nat
        },
{
    if result is Ok {
        lemma_lse(single_batch(q, key_tokens as int, 1));
        assert(q.dims@[0] <= i32::MAX && q.dims@[1] <= i32::MAX && q.dims@[2] <= i32::MAX);
        lemma_split_sizes(single_batch(q, key_tokens as int, 1));
    }
}

proof fn lemma_split_sizes(extents: AttentionExtents)
    ensures
        extents.lse() == extents.batches * extents.query_heads * extents.query_tokens,
{
}

/// Causal BF16 attention by FlashAttention-2: row `t` sees the keys up to its own. A launch
/// without a mask is one of a single row, which sees every key.
pub proof fn lemma_causal_gqa_attends(
    ctx: CudaContext,
    build: AttentionBuild,
    switches: AttentionSwitches,
    q: Tensor,
    k: Tensor,
    v: Tensor,
    key_tokens: usize,
    result: Result<GqaRoute, Error>,
    memory: spec_fn(int) -> int,
    soft: spec_fn(Seq<int>, int) -> Seq<int>,
    t: int,
    h: int,
    c: int,
)
    requires
        call_ensures(causal_gqa_bf16, (&ctx, &build, &switches, &q, &k, &v, key_tokens), result),
        tensor_size(q) <= usize::MAX,
        narrow_dims(q),
        narrow_dims(k),
        q.dims@.len() == 3 ==> lse_fits(single_batch(q, key_tokens as int, 1)) && 0 <= t
            < q.dims@[0],
        key_tokens <= i32::MAX,
    ensures
        result matches Ok(GqaRoute::Fa2(launch)) ==> is_attention(
            launch,
            q,
            k,
            v,
            single_batch(q, key_tokens as int, k.dims@[1] as int),
            true,
            memory,
            soft,
            0,
            t,
            h,
            c,
        ) && resident(q, k, v),
        result is Ok ==> {
            &&& build.fa2_sm80 || build.fa2_f16_sm100
            &&& q.dtype == DType::BF16 && k.dtype == DType::BF16 && v.dtype == DType::BF16
            &&& q.dims@.len() == 3 && k.dims@.len() == 3 && v.dims@ == k.dims@
            &&& q.dims@[0] <= key_tokens <= k.dims@[0]
            &&& q.dims@[2] == k.dims@[2]
            &&& 0 < k.dims@[1] && q.dims@[1] as int % k.dims@[1] as int == 0
        },
        result matches Ok(GqaRoute::Composed(plan)) ==> q.dims@[2] == 256,
{
    if result is Ok {
        lemma_lse(single_batch(q, key_tokens as int, k.dims@[1] as int));
        assert(q.dims@[0] <= i32::MAX && q.dims@[1] <= i32::MAX && q.dims@[2] <= i32::MAX);
        assert(k.dims@[1] <= i32::MAX);
    }
}

/// What runs causal attention. At width 256 it is the specialisation, where the build has it and
/// no switch is against it, for a whole prompt and for a single token; anything else of that
/// width is composed. At other widths nothing is composed.
pub proof fn lemma_causal_gqa_is_composed_last(
    ctx: CudaContext,
    build: AttentionBuild,
    switches: AttentionSwitches,
    q: Tensor,
    k: Tensor,
    v: Tensor,
    key_tokens: usize,
    result: Result<GqaRoute, Error>,
)
    requires
        call_ensures(causal_gqa_bf16, (&ctx, &build, &switches, &q, &k, &v, key_tokens), result),
    ensures
        result matches Ok(route) ==> {
            let rows = q.dims@[0];
            let whole_prompt = rows > 1 && rows == key_tokens;
            &&& route is Composed <==> q.dims@[2] == 256 && {
                ||| !build.fa2_head_special
                ||| rows != 1 && !whole_prompt
                ||| rows == 1 && switches.composed_decode
                ||| whole_prompt && switches.composed_prefill
            }
        },
{
}

/// How causal attention is split: a single token of width 256 sees every key, so its split has
/// no mask; other widths are split where that is enabled for their extents.
pub proof fn lemma_causal_split_is_chosen(
    build: AttentionBuild,
    switches: AttentionSwitches,
    q: Tensor,
    k: Tensor,
    key_tokens: usize,
    choice: GqaChoice,
    enabled: bool,
)
    requires
        q.dims@.len() == 3 && k.dims@.len() == 3,
        call_ensures(choose_gqa, (&build, &switches, &q, &k, key_tokens), choice),
        call_ensures(
            fa2_splitkv_enabled,
            (&switches, q.dims@[0], key_tokens, q.dims@[1], k.dims@[1], q.dims@[2]),
            enabled,
        ),
    ensures
        choice matches GqaChoice::Split { causal } ==> (causal <==> q.dims@[2] != 256),
        q.dims@[2] != 256 ==> (choice is Split <==> enabled),
        q.dims@[2] == 256 ==> (choice is Split ==> q.dims@[0] == 1) && (choice is Causal
            ==> q.dims@[0] == key_tokens && q.dims@[0] > 1),
        choice is Composed ==> q.dims@[2] == 256,
{
}

/// A multi-head launch is attention inside batches of equal length.
pub open spec fn is_mha(
    launch: MhaLaunch,
    q: Tensor,
    k: Tensor,
    v: Tensor,
    tokens: int,
    memory: spec_fn(int) -> int,
    soft: spec_fn(Seq<int>, int) -> Seq<int>,
    b: int,
    t: int,
    h: int,
    c: int,
) -> bool {
    &&& mha_entry(launch, memory, soft, b, t, h, c) == attended_by(
        memory,
        soft,
        q,
        k,
        v,
        tokens,
        tokens,
        q.dims@[1] as int,
        q.dims@[1] as int,
        q.dims@[2] as int,
        false,
        b,
        t,
        h,
        c,
    )
    &&& launch.batches * launch.tokens == q.dims@[0]
    &&& launch.heads == q.dims@[1]
    &&& launch.output_bytes == product(q.dims@) * dtype_size(q.dtype)
}

/// The extents of attention inside batches of `tokens` rows.
pub open spec fn equal_batches(q: Tensor, tokens: int) -> AttentionExtents {
    AttentionExtents {
        batches: (q.dims@[0] as int / tokens) as usize,
        query_tokens: tokens as usize,
        key_tokens: tokens as usize,
        query_heads: q.dims@[1],
        kv_heads: q.dims@[1],
        head_dim: q.dims@[2],
    }
}

proof fn lemma_batches(rows: int, tokens: int)
    requires
        rows >= 0,
        tokens > 0,
        rows % tokens == 0,
    ensures
        rows / tokens * tokens == rows,
        0 <= rows / tokens <= rows,
{
    vstd::arithmetic::div_mod::lemma_fundamental_div_mod(rows, tokens);
    assert(tokens * (rows / tokens) == rows / tokens * tokens) by (nonlinear_arith);
    assert(0 <= rows / tokens <= rows) by (nonlinear_arith)
        requires
            rows >= 0,
            tokens > 0,
    ;
}

/// BF16 multi-head attention, whichever kernel runs it.
pub proof fn lemma_mha_bf16_attends(
    build: AttentionBuild,
    may_prepare: bool,
    q: Tensor,
    k: Tensor,
    v: Tensor,
    tokens_per_batch: usize,
    result: Result<MhaRoute, Error>,
    memory: spec_fn(int) -> int,
    soft: spec_fn(Seq<int>, int) -> Seq<int>,
    b: int,
    t: int,
    h: int,
    c: int,
)
    requires
        call_ensures(mha_bf16, (&build, may_prepare, &q, &k, &v, tokens_per_batch), result),
        tensor_size(q) <= usize::MAX,
        narrow_dims(q),
        tokens_per_batch <= i32::MAX,
    ensures
        result matches Ok(MhaRoute::Fa2(launch)) ==> is_attention(
            launch,
            q,
            k,
            v,
            equal_batches(q, tokens_per_batch as int),
            false,
            memory,
            soft,
            b,
            t,
            h,
            c,
        ) && (build.fa2_sm80 || build.fa2_f16_sm100) && launch.batches * launch.query_tokens == q.dims@[0] && launch.kernel
            == Fa2Kernel::Bf16,
        result matches Ok(MhaRoute::Cutlass { launch, prepare }) ==> is_mha(
            launch,
            q,
            k,
            v,
            tokens_per_batch as int,
            memory,
            soft,
            b,
            t,
            h,
            c,
        ) && build.cutlass_fmha && prepare == may_prepare && q.dims@ =~= seq![q.dims@[0], 16, 72] && tokens_per_batch == 256,
        result matches Ok(MhaRoute::Native(launch)) ==> is_mha(
            launch,
            q,
            k,
            v,
            tokens_per_batch as int,
            memory,
            soft,
            b,
            t,
            h,
            c,
        ) && !(build.fa2_sm80 || build.fa2_f16_sm100),
        result matches Ok(MhaRoute::FlashF16(launch)) ==> is_mha(
            launch,
            q,
            k,
            v,
            tokens_per_batch as int,
            memory,
            soft,
            b,
            t,
            h,
            c,
        ) && false,
        result is Ok ==> {
            &&& q.dtype == DType::BF16 && k.dtype == DType::BF16 && v.dtype == DType::BF16
            &&& resident(q, k, v)
            &&& q.dims@.len() == 3 && k.dims@ == q.dims@ && v.dims@ == q.dims@
            &&& q.dims@[2] <= 256
            &&& tokens_per_batch > 0 && q.dims@[0] as int % tokens_per_batch as int == 0
        },
{
    if result is Ok {
        lemma_lse(equal_batches(q, tokens_per_batch as int));
        lemma_batches(q.dims@[0] as int, tokens_per_batch as int);
        assert(q.dims@[0] <= i32::MAX && q.dims@[1] <= i32::MAX && q.dims@[2] <= i32::MAX);
    }
}

/// FP16 multi-head attention, whichever kernel runs it.
pub proof fn lemma_mha_f16_attends(
    build: AttentionBuild,
    q: Tensor,
    k: Tensor,
    v: Tensor,
    tokens_per_batch: usize,
    result: Result<MhaRoute, Error>,
    memory: spec_fn(int) -> int,
    soft: spec_fn(Seq<int>, int) -> Seq<int>,
    b: int,
    t: int,
    h: int,
    c: int,
)
    requires
        call_ensures(mha_f16, (&build, &q, &k, &v, tokens_per_batch), result),
        tensor_size(q) <= usize::MAX,
        narrow_dims(q),
        tokens_per_batch <= i32::MAX,
    ensures
        result matches Ok(MhaRoute::Fa2(launch)) ==> is_attention(
            launch,
            q,
            k,
            v,
            equal_batches(q, tokens_per_batch as int),
            false,
            memory,
            soft,
            b,
            t,
            h,
            c,
        ) && (build.fa2_f16_sm100) && launch.batches * launch.query_tokens == q.dims@[0] && launch.kernel
            == Fa2Kernel::F16,
        result matches Ok(MhaRoute::Cutlass { launch, prepare }) ==> is_mha(
            launch,
            q,
            k,
            v,
            tokens_per_batch as int,
            memory,
            soft,
            b,
            t,
            h,
            c,
        ) && false,
        result matches Ok(MhaRoute::Native(launch)) ==> is_mha(
            launch,
            q,
            k,
            v,
            tokens_per_batch as int,
            memory,
            soft,
            b,
            t,
            h,
            c,
        ) && false,
        result matches Ok(MhaRoute::FlashF16(launch)) ==> is_mha(
            launch,
            q,
            k,
            v,
            tokens_per_batch as int,
            memory,
            soft,
            b,
            t,
            h,
            c,
        ),
        result is Ok ==> {
            &&& q.dtype == DType::F16 && k.dtype == DType::F16 && v.dtype == DType::F16
            &&& resident(q, k, v)
            &&& q.dims@.len() == 3 && k.dims@ == q.dims@ && v.dims@ == q.dims@
            &&& q.dims@[2] <= 256
            &&& tokens_per_batch > 0 && q.dims@[0] as int % tokens_per_batch as int == 0
        },
{
    if result is Ok {
        lemma_lse(equal_batches(q, tokens_per_batch as int));
        lemma_batches(q.dims@[0] as int, tokens_per_batch as int);
        assert(q.dims@[0] <= i32::MAX && q.dims@[1] <= i32::MAX && q.dims@[2] <= i32::MAX);
    }
}

/// FP16 attention over one contiguous key head.
pub proof fn lemma_cublas_mqa_f16_attends(
    q: Tensor,
    k: Tensor,
    v: Tensor,
    key_tokens: usize,
    result: Result<MqaLaunch, Error>,
    memory: spec_fn(int) -> int,
    soft: spec_fn(Seq<int>, int) -> Seq<int>,
    t: int,
    h: int,
    c: int,
)
    requires
        call_ensures(cublas_mqa_f16, (&q, &k, &v, key_tokens), result),
        tensor_size(q) <= usize::MAX,
        narrow_dims(q),
        q.dims@.len() == 3,
        key_tokens <= i32::MAX,
    ensures
        result matches Ok(launch) ==> is_mqa(
            launch,
            q,
            k,
            v,
            key_tokens as int,
            memory,
            soft,
            t,
            h,
            c,
        ) && launch.kernel == MqaKernel::CublasF16,
        result is Ok <==> resident(q, k, v),
{
    assert(q.dims@[0] <= i32::MAX && q.dims@[1] <= i32::MAX && q.dims@[2] <= i32::MAX);
}

/// FP16 attention over a filled cache.
pub proof fn lemma_mqa_cached_f16_attends(
    q: Tensor,
    k: Tensor,
    v: Tensor,
    key_tokens: usize,
    result: Result<MqaLaunch, Error>,
    memory: spec_fn(int) -> int,
    soft: spec_fn(Seq<int>, int) -> Seq<int>,
    t: int,
    h: int,
    c: int,
)
    requires
        call_ensures(mqa_cached_f16, (&q, &k, &v, key_tokens), result),
        tensor_size(q) <= usize::MAX,
        narrow_dims(q),
        q.dims@.len() == 3,
        key_tokens <= i32::MAX,
    ensures
        result matches Ok(launch) ==> is_mqa(
            launch,
            q,
            k,
            v,
            key_tokens as int,
            memory,
            soft,
            t,
            h,
            c,
        ) && launch.kernel == MqaKernel::CublasF16,
        result is Ok <==> {
            &&& q.dtype == DType::F16 && k.dtype == DType::F16 && v.dtype == DType::F16
            &&& q.dims@.len() == 3 && k.dims@ =~= seq![key_tokens, q.dims@[2]] && v.dims@ == k.dims@
            &&& resident(q, k, v)
        },
{
    assert(q.dims@[0] <= i32::MAX && q.dims@[1] <= i32::MAX && q.dims@[2] <= i32::MAX);
}

/// FP16 FlashAttention-2 over one key head.
pub proof fn lemma_fa2_mqa_f16_attends(
    q: Tensor,
    k: Tensor,
    v: Tensor,
    key_tokens: usize,
    result: Result<Fa2Launch, Error>,
    memory: spec_fn(int) -> int,
    soft: spec_fn(Seq<int>, int) -> Seq<int>,
    t: int,
    h: int,
    c: int,
)
    requires
        call_ensures(fa2_mqa_f16, (&q, &k, &v, key_tokens), result),
        tensor_size(q) <= usize::MAX,
        narrow_dims(q),
        q.dims@.len() == 3,
        key_tokens <= i32::MAX,
    ensures
        result matches Ok(launch) ==> is_attention(
            launch,
            q,
            k,
            v,
            single_batch(q, key_tokens as int, 1),
            false,
            memory,
            soft,
            0,
            t,
            h,
            c,
        ) && launch.kernel == Fa2Kernel::F16 && launch.split is None,
        result is Ok <==> resident(q, k, v) && lse_fits(single_batch(q, key_tokens as int, 1)),
{
    assert(q.dims@[0] <= i32::MAX && q.dims@[1] <= i32::MAX && q.dims@[2] <= i32::MAX);
    lemma_lse(single_batch(q, key_tokens as int, 1));
}

/// FP16 self-attention over one key head, whichever kernel runs it.
pub proof fn lemma_mqa_f16_attends(
    build: AttentionBuild,
    q: Tensor,
    k: Tensor,
    v: Tensor,
    result: Result<MqaRoute, Error>,
    memory: spec_fn(int) -> int,
    soft: spec_fn(Seq<int>, int) -> Seq<int>,
    t: int,
    h: int,
    c: int,
)
    requires
        call_ensures(mqa_f16, (&build, &q, &k, &v), result),
        tensor_size(q) <= usize::MAX,
        narrow_dims(q),
    ensures
        result matches Ok(MqaRoute::Fa2(launch)) ==> is_attention(
            launch,
            q,
            k,
            v,
            single_batch(q, q.dims@[0] as int, 1),
            false,
            memory,
            soft,
            0,
            t,
            h,
            c,
        ) && build.fa2_f16_sm100 && launch.kernel == Fa2Kernel::F16,
        result matches Ok(MqaRoute::Mqa(launch)) ==> is_mqa(
            launch,
            q,
            k,
            v,
            q.dims@[0] as int,
            memory,
            soft,
            t,
            h,
            c,
        ) && !build.fa2_f16_sm100 && launch.kernel == MqaKernel::CublasF16,
        result is Ok ==> {
            &&& q.dtype == DType::F16 && k.dtype == DType::F16 && v.dtype == DType::F16
            &&& resident(q, k, v)
            &&& q.dims@.len() == 3 && k.dims@ =~= seq![q.dims@[0], 1, q.dims@[2]]
            &&& v.dims@ == k.dims@
        },
{
    if result is Ok {
        assert(q.dims@[0] <= i32::MAX && q.dims@[1] <= i32::MAX && q.dims@[2] <= i32::MAX);
        lemma_lse(single_batch(q, q.dims@[0] as int, 1));
    }
}

/// Attention with a quantized result reads the tensors of the call; its buffers have room
/// for one byte per element and one 32-bit float per row and head.
pub proof fn lemma_direct_e4m3_reads_its_operands(
    build: AttentionBuild,
    q: Tensor,
    k: Tensor,
    v: Tensor,
    output_scale: u32,
    result: Result<DirectE4m3Launch, Error>,
)
    requires
        call_ensures(mqa_f16_e4m3_522, (&build, &q, &k, &v, output_scale), result),
    ensures
        result matches Ok(launch) ==> {
            &&& launch.query == q.buffer.address
            &&& launch.key == k.buffer.address
            &&& launch.value == v.buffer.address
            &&& launch.output_scale == output_scale
            &&& launch.output_bytes == q.dims@[0] * q.dims@[1] * q.dims@[2]
            &&& launch.lse_bytes == q.dims@[0] * q.dims@[1] * 4
        },
        result is Ok <==> {
            &&& build.fa2_direct_e4m3_sm100
            &&& q.dtype == DType::F16 && k.dtype == DType::F16 && v.dtype == DType::F16
            &&& q.dims@ == seq![522usize, 8, 256]
            &&& k.dims@ == seq![522usize, 1, 256]
            &&& v.dims@ == seq![522usize, 1, 256]
            &&& 0 < output_scale < 0x7f80_0000
            &&& resident(q, k, v)
        },
{
}

/// What a vision launch computes.
pub open spec fn vision_entry(
    launch: VisionLaunch,
    memory: spec_fn(int) -> int,
    soft: spec_fn(Seq<int>, int) -> Seq<int>,
    t: int,
    h: int,
    c: int,
) -> int {
    attended(
        memory,
        soft,
        launch.query as int,
        launch.key as int,
        launch.value as int,
        launch.seq_len as int,
        launch.seq_len as int,
        launch.heads as int,
        launch.heads as int,
        launch.head_dim as int,
        launch.scale_dim as int,
        launch.seq_len as int,
        0,
        t,
        h,
        c,
    )
}

/// What a portable launch computes.
pub open spec fn portable_entry(
    launch: PortableLaunch,
    memory: spec_fn(int) -> int,
    soft: spec_fn(Seq<int>, int) -> Seq<int>,
    t: int,
    h: int,
    c: int,
) -> int {
    attended(
        memory,
        soft,
        launch.query as int,
        launch.key as int,
        launch.value as int,
        launch.query_len as int,
        launch.key_value_len as int,
        launch.heads as int,
        launch.heads as int,
        launch.head_dim as int,
        launch.scale_dim as int,
        launch.key_value_len as int,
        0,
        t,
        h,
        c,
    )
}

/// A route is full attention of `rows` query rows over `keys` keys, and its result has
/// `rows` rows of all heads.
pub open spec fn is_dense_attention(
    route: DenseRoute,
    q: Tensor,
    k: Tensor,
    v: Tensor,
    rows: int,
    keys: int,
    heads: int,
    head_dim: int,
    memory: spec_fn(int) -> int,
    soft: spec_fn(Seq<int>, int) -> Seq<int>,
    t: int,
    h: int,
    c: int,
) -> bool {
    let expected = attended_by(
        memory,
        soft,
        q,
        k,
        v,
        rows,
        keys,
        heads,
        heads,
        head_dim,
        false,
        0,
        t,
        h,
        c,
    );
    match route {
        DenseRoute::Fa2 { launch, rows: count, cols } => {
            &&& fa2_entry(launch, memory, soft, 0, t, h, c) == expected
            &&& launch.batches == 1 && launch.query_tokens == rows && launch.query_heads == heads
            &&& launch.kernel == Fa2Kernel::Bf16 && launch.split is None
            &&& launch.output_bytes == product(q.dims@) * dtype_size(q.dtype)
            &&& launch.lse_bytes == heads * rows * 4
            &&& count == rows && cols == heads * head_dim
        },
        DenseRoute::Vision(launch) => {
            &&& vision_entry(launch, memory, soft, t, h, c) == expected
            &&& launch.seq_len == rows && launch.heads == heads
            &&& launch.output.dtype == DType::BF16
            &&& launch.output.rows == rows && launch.output.cols == heads * head_dim
            &&& launch.output.bytes == rows * (heads * head_dim) * 2
        },
        DenseRoute::Portable(launch) => {
            &&& portable_entry(launch, memory, soft, t, h, c) == expected
            &&& launch.query_len == rows && launch.heads == heads
            &&& launch.output.dtype == DType::BF16
            &&& launch.output.rows == rows && launch.output.cols == heads * head_dim
            &&& launch.output.bytes == rows * (heads * head_dim) * 2
        },
    }
}

proof fn lemma_hidden(rows: int, heads: int, head_dim: int)
    requires
        rows >= 0,
        heads >= 0,
        head_dim >= 0,
    ensures
        0 <= heads * head_dim,
        0 <= rows * (heads * head_dim),
        rows * heads * head_dim == rows * (heads * head_dim),
        1 * heads * rows == heads * rows,
{
    assert(0 <= heads * head_dim) by (nonlinear_arith)
        requires
            heads >= 0,
            head_dim >= 0,
    ;
    assert(0 <= rows * (heads * head_dim)) by (nonlinear_arith)
        requires
            rows >= 0,
            heads * head_dim >= 0,
    ;
    assert(rows * heads * head_dim == rows * (heads * head_dim)) by (nonlinear_arith);
    assert(1 * heads * rows == heads * rows) by (nonlinear_arith);
}

/// Vision attention, whichever kernel runs it.
pub proof fn lemma_vision_attends(
    build: AttentionBuild,
    switches: AttentionSwitches,
    q: Tensor,
    k: Tensor,
    v: Tensor,
    seq_len: usize,
    n_heads: usize,
    head_dim: usize,
    result: Result<DenseRoute, Error>,
    memory: spec_fn(int) -> int,
    soft: spec_fn(Seq<int>, int) -> Seq<int>,
    t: int,
    h: int,
    c: int,
)
    requires
        call_ensures(vision, (&build, &switches, &q, &k, &v, seq_len, n_heads, head_dim), result),
        tensor_size(q) <= usize::MAX,
        seq_len <= i32::MAX,
        n_heads <= i32::MAX,
        n_heads * head_dim <= usize::MAX,
        seq_len * (n_heads * head_dim) * 2 <= usize::MAX,
    ensures
        result matches Ok(route) ==> {
            &&& is_dense_attention(
                route,
                q,
                k,
                v,
                seq_len as int,
                seq_len as int,
                n_heads as int,
                head_dim as int,
                memory,
                soft,
                t,
                h,
                c,
            )
            &&& route is Fa2 <==> (build.fa2_sm80 || build.fa2_f16_sm100) && !switches.vision_legacy
            &&& route !is Portable
            &&& route matches DenseRoute::Vision(launch) ==> {
                &&& launch.kernel == VisionKernel::Head64 <==> head_dim == 64
                    && !switches.vision_legacy
                &&& launch.kernel == VisionKernel::Head72 <==> head_dim == 72
                    && !switches.vision_legacy
            }
        },
        result is Ok ==> {
            &&& q.dtype == DType::BF16 && k.dtype == DType::BF16 && v.dtype == DType::BF16
            &&& resident(q, k, v)
            &&& 0 < head_dim <= 256
        },
{
    lemma_hidden(seq_len as int, n_heads as int, head_dim as int);
}

/// Full attention over tensors of their own lengths, whichever kernel runs it.
pub proof fn lemma_noncausal_attends(
    ctx: CudaContext,
    build: AttentionBuild,
    q: Tensor,
    k: Tensor,
    v: Tensor,
    n_heads: usize,
    head_dim: usize,
    result: Result<DenseRoute, Error>,
    memory: spec_fn(int) -> int,
    soft: spec_fn(Seq<int>, int) -> Seq<int>,
    t: int,
    h: int,
    c: int,
)
    requires
        call_ensures(noncausal, (&ctx, &build, &q, &k, &v, n_heads, head_dim), result),
        tensor_size(q) <= usize::MAX,
        narrow_dims(q),
        narrow_dims(k),
    ensures
        result matches Ok(route) ==> {
            &&& is_dense_attention(
                route,
                q,
                k,
                v,
                q.dims@[0] as int,
                k.dims@[0] as int,
                n_heads as int,
                head_dim as int,
                memory,
                soft,
                t,
                h,
                c,
            )
            &&& route is Fa2 <==> build.fa2_sm80 || build.fa2_f16_sm100
            &&& route !is Vision
        },
        result is Ok ==> {
            let here = Device::Cuda(ctx.device_id);
            &&& q.dtype == DType::BF16 && k.dtype == DType::BF16 && v.dtype == DType::BF16
            &&& q.device == here && k.device == here && v.device == here
            &&& q.dims@ =~= seq![q.dims@[0], n_heads, head_dim] && q.dims@[0] > 0
            &&& k.dims@ =~= seq![k.dims@[0], n_heads, head_dim] && k.dims@[0] > 0
            &&& v.dims@ == k.dims@
            &&& n_heads > 0 && 0 < head_dim <= 64 && head_dim % 2 == 0
            &&& build.fa2_sm80 || build.fa2_f16_sm100 || k.dims@[0] <= 12287
        },
{
    if result is Ok {
        assert(q.dims@[0] <= i32::MAX && q.dims@[1] <= i32::MAX);
        assert(k.dims@[0] <= i32::MAX);
        lemma_hidden(q.dims@[0] as int, n_heads as int, head_dim as int);
    }
}

/// Element `c` of row `t` of head `h`, for a projection whose rows hold all query heads,
/// all key heads and all value heads.
pub open spec fn attended_in_place(
    memory: spec_fn(int) -> int,
    soft: spec_fn(Seq<int>, int) -> Seq<int>,
    qkv: int,
    tokens: int,
    heads: int,
    head_dim: int,
    scale_dim: int,
    b: int,
    t: int,
    h: int,
    c: int,
) -> int {
    let hidden = heads * head_dim;
    let q = row(memory, qkv, 2, (b * tokens + t) * (3 * hidden) + h * head_dim, head_dim);
    let scores = Seq::new(
        tokens as nat,
        |j: int|
            inner(
                q,
                row(
                    memory,
                    qkv,
                    2,
                    (b * tokens + j) * (3 * hidden) + hidden + h * head_dim,
                    head_dim,
                ),
            ),
    );
    inner(
        soft(scores, scale_dim),
        Seq::new(
            tokens as nat,
            |j: int|
                element(
                    memory,
                    qkv,
                    2,
                    (b * tokens + j) * (3 * hidden) + 2 * hidden + h * head_dim + c,
                ),
        ),
    )
}

/// Full attention over views of one projection.
pub proof fn lemma_strided_attends(
    ctx: CudaContext,
    build: AttentionBuild,
    qkv: Tensor,
    n_heads: usize,
    head_dim: usize,
    result: Result<StridedLaunch, Error>,
    memory: spec_fn(int) -> int,
    soft: spec_fn(Seq<int>, int) -> Seq<int>,
    t: int,
    h: int,
    c: int,
)
    requires
        call_ensures(noncausal_strided_qkv, (&ctx, &build, &qkv, n_heads, head_dim), result),
        qkv.dims@.len() == 2 ==> qkv.dims@[0] * (n_heads * head_dim) * 2 <= usize::MAX,
        3 * (n_heads * head_dim) <= usize::MAX,
    ensures
        result matches Ok(launch) ==> {
            &&& attended_in_place(
                memory,
                soft,
                launch.qkv as int,
                launch.tokens as int,
                launch.heads as int,
                launch.head_dim as int,
                launch.scale_dim as int,
                0,
                t,
                h,
                c,
            ) == attended_in_place(
                memory,
                soft,
                qkv.buffer.address as int,
                qkv.dims@[0] as int,
                n_heads as int,
                head_dim as int,
                head_dim as int,
                0,
                t,
                h,
                c,
            )
            &&& launch.tokens == qkv.dims@[0]
            &&& launch.output.dtype == DType::BF16
            &&& launch.output.rows == qkv.dims@[0] && launch.output.cols == n_heads * head_dim
            &&& launch.output.bytes == qkv.dims@[0] * (n_heads * head_dim) * 2
            &&& launch.lse_bytes == n_heads * qkv.dims@[0] * 4
        },
        result is Ok <==> {
            &&& build.fa2_sm80 || build.fa2_f16_sm100
            &&& qkv.dtype == DType::BF16 && qkv.device == Device::Cuda(ctx.device_id)
            &&& qkv.dims@.len() == 2 && 0 < qkv.dims@[0] <= i32::MAX
            &&& qkv.dims@[1] == 3 * (n_heads * head_dim)
            &&& 0 < n_heads <= i32::MAX && 0 < head_dim <= 64 && head_dim % 2 == 0
            &&& n_heads * qkv.dims@[0] * 4 <= usize::MAX
        },
{
    lemma_hidden(0, n_heads as int, head_dim as int);
    if qkv.dims@.len() == 2 {
        lemma_hidden(qkv.dims@[0] as int, n_heads as int, head_dim as int);
        lemma_hidden(0, n_heads as int, qkv.dims@[0] as int);
    }
}

/// Keys and values of a prefix are put before those of a suffix, keys before keys and values
/// before values, for queries of the suffix.
pub proof fn lemma_prefix_precedes_suffix(
    q: Tensor,
    prefix_k: Tensor,
    prefix_v: Tensor,
    suffix_k: Tensor,
    suffix_v: Tensor,
    result: Result<PrefixSuffix, Error>,
    memory: spec_fn(int) -> int,
    t: int,
    c: int,
)
    requires
        call_ensures(
            mqa_prefix_suffix_f16,
            (&q, &prefix_k, &prefix_v, &suffix_k, &suffix_v),
            result,
        ),
        narrow_dims(prefix_k),
        narrow_dims(suffix_k),
        prefix_k.dims@.len() == 2 && suffix_k.dims@.len() == 2 ==> prefix_k.dims@[0]
            + suffix_k.dims@[0] <= usize::MAX,
    ensures
        result matches Ok(both) ==> {
            &&& stacks(both.key, DType::F16, prefix_k, suffix_k, memory, t, c)
            &&& stacks(both.value, DType::F16, prefix_v, suffix_v, memory, t, c)
            &&& both.key_tokens == prefix_k.dims@[0] + suffix_k.dims@[0]
        },
        result is Ok <==> {
            &&& q.dtype == DType::F16 && q.dims@.len() == 3
            &&& stackable(DType::F16, prefix_k, suffix_k)
            &&& stackable(DType::F16, prefix_v, suffix_v)
            &&& prefix_v.dims@ == prefix_k.dims@ && suffix_v.dims@ == suffix_k.dims@
            &&& q.dims@[0] == suffix_k.dims@[0] && q.dims@[2] == prefix_k.dims@[1]
        },
{
    if prefix_k.dims@.len() == 2 && suffix_k.dims@.len() == 2 {
        assert(prefix_k.dims@[0] <= i32::MAX && prefix_k.dims@[1] <= i32::MAX);
        assert(suffix_k.dims@[0] <= i32::MAX);
        lemma_hidden(0, prefix_k.dims@[0] + suffix_k.dims@[0], prefix_k.dims@[1] as int);
    }
}

/// A packed projection is attended to in place, batch by batch, once its bias is added; where
/// the kernel does not cover the shape, the projection is split.
pub proof fn lemma_packed_projection_attends(
    build: AttentionBuild,
    qkv: Tensor,
    bias: Option<&Tensor>,
    tokens: usize,
    heads: usize,
    head_dim: usize,
    result: Result<PackedRoute, Error>,
    biased_first: Result<BiasLaunch, Error>,
    split: Result<SplitBiasLaunch, Error>,
    memory: spec_fn(int) -> int,
    soft: spec_fn(Seq<int>, int) -> Seq<int>,
    b: int,
    t: int,
    h: int,
    c: int,
)
    requires
        call_ensures(
            mha_packed_qkv_bias_f16,
            (&build, &qkv, bias, tokens, heads, head_dim),
            result,
        ),
        call_ensures(bias_f16, (&qkv, bias), biased_first),
        call_ensures(split_qkv_bias_f16, (&qkv, bias, heads, head_dim), split),
        qkv.dims@.len() == 2 ==> qkv.dims@[0] <= i32::MAX,
    ensures
        result matches Ok(PackedRoute::Strided(launch)) ==> {
            &&& attended_in_place(
                memory,
                soft,
                launch.packed as int,
                launch.tokens as int,
                launch.heads as int,
                launch.head_dim as int,
                launch.scale_dim as int,
                b,
                t,
                h,
                c,
            ) == attended_in_place(
                memory,
                soft,
                qkv.buffer.address as int,
                tokens as int,
                heads as int,
                head_dim as int,
                head_dim as int,
                b,
                t,
                h,
                c,
            )
            &&& launch.batches * launch.tokens == qkv.dims@[0] && launch.tokens == tokens
            &&& launch.bias is Some <==> bias is Some
            &&& launch.bias matches Some(first) ==> biased_first == Ok::<BiasLaunch, Error>(first)
            &&& launch.output.dtype == DType::F16 && launch.output.rows == qkv.dims@[0]
                && launch.output.cols == heads * head_dim && launch.output.bytes == qkv.dims@[0] * (
            heads * head_dim) * 2
            &&& launch.lse_bytes == qkv.dims@[0] * heads * 4
        },
        result matches Ok(PackedRoute::Split(parts)) ==> split == Ok::<SplitBiasLaunch, Error>(
            parts,
        ),
        result matches Ok(route) ==> (route is Strided <==> build.fa2_f16_sm100 && tokens == 256
            && heads == 16 && head_dim == 72),
        result is Ok ==> {
            &&& qkv.dtype == DType::F16 && qkv.dims@.len() == 2
            &&& qkv.dims@[1] == 3 * (heads * head_dim)
            &&& tokens > 0 && qkv.dims@[0] % tokens == 0
        },
{
    if result is Ok {
        let rows = qkv.dims@[0] as int;
        vstd::arithmetic::div_mod::lemma_fundamental_div_mod(rows, tokens as int);
        assert(tokens * (rows / tokens as int) == rows / tokens as int * tokens) by (nonlinear_arith);
        assert(0 <= rows / tokens as int <= rows) by (nonlinear_arith)
            requires
                0 <= rows,
                tokens > 0,
        ;
        lemma_hidden(rows, heads as int, head_dim as int);
        lemma_hidden(0, rows, heads as int);
    }
}

} // verus!
