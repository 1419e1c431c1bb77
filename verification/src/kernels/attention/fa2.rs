//! FlashAttention-2 launches and the routes that lead to them.

use super::super::contracts::{
    first_of, gpu_ptr, pointers_problem, tensor_bytes, tensor_fits, tensor_size, unless,
};
use super::features::{AttentionBuild, AttentionSwitches};
use super::split::{key_tile, key_tile_rows, plan_fa2_split_count, planned_splits, tile_count, tiles};
use crate::context::CudaContext;
use crate::error::Error;
use crate::types::Tensor;
use vstd::prelude::*;

verus! {

#[derive(Clone, Copy, Debug, PartialEq, Eq, Structural)]
pub enum Fa2Kernel {
    /// `apxinf_static_fa2_bf16`.
    Bf16,
    /// `apxinf_static_fa2_bf16_causal`.
    Bf16Causal,
    /// `apxinf_static_fa2_bf16_splitkv`.
    Bf16Split,
    /// `apxinf_static_fa2_bf16_causal_splitkv`.
    Bf16CausalSplit,
    /// `apxinf_static_fa2_f16`.
    F16,
}

/// Temporary memory of a split launch.
#[derive(Clone, Copy, Debug, PartialEq, Eq, Structural)]
pub struct SplitWorkspace {
    pub splits: i32,
    pub lse_accum_bytes: usize,
    pub o_accum_bytes: usize,
}

/// One FlashAttention-2 launch. The output and the log-sum-exp buffer are
/// allocated for it; the softmax scale is one over the root of `scale_dim`.
#[derive(Clone, Copy, Debug, PartialEq, Eq, Structural)]
pub struct Fa2Launch {
    pub kernel: Fa2Kernel,
    pub query: usize,
    pub key: usize,
    pub value: usize,
    pub batches: i32,
    pub query_tokens: i32,
    pub key_tokens: i32,
    pub query_heads: i32,
    pub kv_heads: i32,
    pub head_dim: i32,
    pub scale_dim: usize,
    pub output_bytes: usize,
    pub lse_bytes: usize,
    pub split: Option<SplitWorkspace>,
}

pub const LSE_OVERFLOW: &'static str = "static inference BF16 FA2 LSE size overflow";

pub const LSE_BYTE_OVERFLOW: &'static str = "static inference BF16 FA2 LSE byte size overflow";

pub const SPLIT_LSE_OVERFLOW: &'static str = "static inference BF16 split-KV LSE size overflow";

pub const SPLIT_LSE_BYTE_OVERFLOW: &'static str = "static inference BF16 split-KV LSE overflow";

pub const SPLIT_ACCUM_OVERFLOW: &'static str = "static inference BF16 split-KV LSE accum overflow";

pub const SPLIT_O_OVERFLOW: &'static str = "static inference BF16 split-KV O accum overflow";

pub const SPLIT_O_BYTE_OVERFLOW: &'static str =
    "static inference BF16 split-KV O accum byte overflow";

pub const F16_LSE_OVERFLOW: &'static str = "FA2 FP16 LSE size overflow";

pub const F16_LSE_BYTE_OVERFLOW: &'static str = "FA2 FP16 LSE byte size overflow";

/// What is wrong with a log-sum-exp buffer of 32-bit floats.
pub open spec fn lse_problem(
    batches: usize,
    heads: usize,
    tokens: usize,
    elements: &'static str,
    bytes: &'static str,
) -> Option<Error> {
    if batches * heads > usize::MAX || batches * heads * tokens > usize::MAX {
        Some(Error::Other(elements))
    } else if batches * heads * tokens * 4 > usize::MAX {
        Some(Error::Other(bytes))
    } else {
        None
    }
}

fn lse_elements(batches: usize, heads: usize, tokens: usize, text: &'static str) -> (result: Result<
    usize,
    Error,
>)
    ensures
        result == (if batches * heads > usize::MAX || batches * heads * tokens > usize::MAX {
            Err(Error::Other(text))
        } else {
            Ok::<usize, Error>((batches * heads * tokens) as usize)
        }),
{
    match batches.checked_mul(heads) {
        Some(rows) => match rows.checked_mul(tokens) {
            Some(elements) => Ok(elements),
            None => Err(Error::Other(text)),
        },
        None => Err(Error::Other(text)),
    }
}

fn floats(elements: usize, text: &'static str) -> (result: Result<usize, Error>)
    ensures
        result == (if elements * 4 > usize::MAX {
            Err(Error::Other(text))
        } else {
            Ok::<usize, Error>((elements * 4) as usize)
        }),
{
    match elements.checked_mul(4) {
        Some(bytes) => Ok(bytes),
        None => Err(Error::Other(text)),
    }
}

/// The extents of one attention call.
#[derive(Clone, Copy, Debug, PartialEq, Eq, Structural)]
pub struct AttentionExtents {
    pub batches: usize,
    pub query_tokens: usize,
    pub key_tokens: usize,
    pub query_heads: usize,
    pub kv_heads: usize,
    pub head_dim: usize,
}

impl AttentionExtents {
    /// Elements of the log-sum-exp buffer.
    pub open spec fn lse(self) -> int {
        self.batches * self.query_heads * self.query_tokens
    }
}

/// A launch without splits, over device addresses.
pub open spec fn fa2_at(
    kernel: Fa2Kernel,
    query: usize,
    key: usize,
    value: usize,
    output_bytes: usize,
    extents: AttentionExtents,
) -> Fa2Launch {
    Fa2Launch {
        kernel,
        query,
        key,
        value,
        batches: extents.batches as i32,
        query_tokens: extents.query_tokens as i32,
        key_tokens: extents.key_tokens as i32,
        query_heads: extents.query_heads as i32,
        kv_heads: extents.kv_heads as i32,
        head_dim: extents.head_dim as i32,
        scale_dim: extents.head_dim,
        output_bytes,
        lse_bytes: (extents.lse() * 4) as usize,
        split: None,
    }
}

/// A launch without splits. The output has the size of the queries.
pub open spec fn fa2_launch(
    kernel: Fa2Kernel,
    q: Tensor,
    k: Tensor,
    v: Tensor,
    extents: AttentionExtents,
) -> Fa2Launch {
    fa2_at(
        kernel,
        q.buffer.address,
        k.buffer.address,
        v.buffer.address,
        tensor_size(q) as usize,
        extents,
    )
}

fn launch_at(
    kernel: Fa2Kernel,
    query: usize,
    key: usize,
    value: usize,
    output_bytes: usize,
    extents: &AttentionExtents,
    lse_bytes: usize,
) -> (launch: Fa2Launch)
    requires
        lse_bytes == extents.lse() * 4,
    ensures
        launch == fa2_at(kernel, query, key, value, output_bytes, *extents),
{
    Fa2Launch {
        kernel,
        query,
        key,
        value,
        batches: extents.batches as i32,
        query_tokens: extents.query_tokens as i32,
        key_tokens: extents.key_tokens as i32,
        query_heads: extents.query_heads as i32,
        kv_heads: extents.kv_heads as i32,
        head_dim: extents.head_dim as i32,
        scale_dim: extents.head_dim,
        output_bytes,
        lse_bytes,
        split: None,
    }
}

fn launch_fa2(
    kernel: Fa2Kernel,
    q: &Tensor,
    k: &Tensor,
    v: &Tensor,
    extents: &AttentionExtents,
    lse_bytes: usize,
) -> (result: Result<Fa2Launch, Error>)
    requires
        tensor_fits(*q),
        lse_bytes == extents.lse() * 4,
    ensures
        result == unless(pointers_problem(*q, *k, *v), fa2_launch(kernel, *q, *k, *v, *extents)),
{
    let query: usize = gpu_ptr(q)?;
    let key: usize = gpu_ptr(k)?;
    let value: usize = gpu_ptr(v)?;
    Ok(launch_at(kernel, query, key, value, tensor_bytes(q), extents, lse_bytes))
}

pub open spec fn fa2_problem(q: Tensor, k: Tensor, v: Tensor, extents: AttentionExtents) -> Option<
    Error,
> {
    first_of(
        lse_problem(
            extents.batches,
            extents.query_heads,
            extents.query_tokens,
            LSE_OVERFLOW,
            LSE_BYTE_OVERFLOW,
        ),
        pointers_problem(q, k, v),
    )
}

/// Full attention over dense BF16 heads.
pub fn fa2_attention(q: &Tensor, k: &Tensor, v: &Tensor, extents: &AttentionExtents) -> (result:
    Result<Fa2Launch, Error>)
    requires
        tensor_fits(*q),
    ensures
        result == unless(
            fa2_problem(*q, *k, *v, *extents),
            fa2_launch(Fa2Kernel::Bf16, *q, *k, *v, *extents),
        ),
        result matches Ok(launch) ==> {
            &&& launch.query == q.buffer.address
            &&& launch.key == k.buffer.address
            &&& launch.value == v.buffer.address
            &&& launch.batches == extents.batches as i32
            &&& launch.query_tokens == extents.query_tokens as i32
            &&& launch.key_tokens == extents.key_tokens as i32
            &&& launch.query_heads == extents.query_heads as i32
            &&& launch.kv_heads == extents.kv_heads as i32
            &&& launch.head_dim == extents.head_dim as i32
            &&& launch.scale_dim == extents.head_dim
        },
{
    let elements: usize = lse_elements(
        extents.batches,
        extents.query_heads,
        extents.query_tokens,
        LSE_OVERFLOW,
    )?;
    let lse_bytes: usize = floats(elements, LSE_BYTE_OVERFLOW)?;
    launch_fa2(Fa2Kernel::Bf16, q, k, v, extents, lse_bytes)
}

pub open spec fn fa2_f16_problem(q: Tensor, k: Tensor, v: Tensor, extents: AttentionExtents) -> Option<
    Error,
> {
    first_of(
        lse_problem(
            extents.batches,
            extents.query_heads,
            extents.query_tokens,
            F16_LSE_OVERFLOW,
            F16_LSE_BYTE_OVERFLOW,
        ),
        pointers_problem(q, k, v),
    )
}

/// Full attention over dense FP16 heads.
pub fn fa2_attention_f16(q: &Tensor, k: &Tensor, v: &Tensor, extents: &AttentionExtents) -> (result:
    Result<Fa2Launch, Error>)
    requires
        tensor_fits(*q),
    ensures
        result == unless(
            fa2_f16_problem(*q, *k, *v, *extents),
            fa2_launch(Fa2Kernel::F16, *q, *k, *v, *extents),
        ),
        result matches Ok(launch) ==> {
            &&& launch.query == q.buffer.address
            &&& launch.key == k.buffer.address
            &&& launch.value == v.buffer.address
            &&& launch.batches == extents.batches as i32
            &&& launch.query_tokens == extents.query_tokens as i32
            &&& launch.key_tokens == extents.key_tokens as i32
            &&& launch.query_heads == extents.query_heads as i32
            &&& launch.kv_heads == extents.kv_heads as i32
            &&& launch.head_dim == extents.head_dim as i32
            &&& launch.scale_dim == extents.head_dim
        },
{
    let elements: usize = lse_elements(
        extents.batches,
        extents.query_heads,
        extents.query_tokens,
        F16_LSE_OVERFLOW,
    )?;
    let lse_bytes: usize = floats(elements, F16_LSE_BYTE_OVERFLOW)?;
    launch_fa2(Fa2Kernel::F16, q, k, v, extents, lse_bytes)
}

/// Causal attention over dense BF16 heads of one batch.
pub fn fa2_attention_causal(q: &Tensor, k: &Tensor, v: &Tensor, extents: &AttentionExtents) -> (result:
    Result<Fa2Launch, Error>)
    requires
        tensor_fits(*q),
        extents.batches == 1,
        extents.query_heads * extents.query_tokens <= usize::MAX,
        extents.query_heads * extents.query_tokens * 4 <= usize::MAX,
    ensures
        result == unless(
            pointers_problem(*q, *k, *v),
            fa2_launch(Fa2Kernel::Bf16Causal, *q, *k, *v, *extents),
        ),
        result matches Ok(launch) ==> {
            &&& launch.query == q.buffer.address
            &&& launch.key == k.buffer.address
            &&& launch.value == v.buffer.address
            &&& launch.batches == extents.batches as i32
            &&& launch.query_tokens == extents.query_tokens as i32
            &&& launch.key_tokens == extents.key_tokens as i32
            &&& launch.query_heads == extents.query_heads as i32
            &&& launch.kv_heads == extents.kv_heads as i32
            &&& launch.head_dim == extents.head_dim as i32
            &&& launch.scale_dim == extents.head_dim
        },
{
    let lse_bytes: usize = extents.query_heads * extents.query_tokens * 4;
    assert(extents.lse() == extents.query_heads * extents.query_tokens) by (nonlinear_arith)
        requires
            extents.batches == 1,
            extents.lse() == extents.batches * extents.query_heads * extents.query_tokens,
    ;
    launch_fa2(Fa2Kernel::Bf16Causal, q, k, v, extents, lse_bytes)
}

pub open spec fn splitkv_enabled(
    switches: AttentionSwitches,
    query_tokens: usize,
    key_tokens: usize,
    query_heads: usize,
    kv_heads: usize,
    head_dim: usize,
) -> bool {
    !switches.no_splitkv && query_tokens <= 64 && key_tokens > query_tokens && query_heads
        > kv_heads && (head_dim == 128 || head_dim == 256)
}

/// Whether a short query over a longer sequence is split along the keys.
pub fn fa2_splitkv_enabled(
    switches: &AttentionSwitches,
    query_tokens: usize,
    key_tokens: usize,
    query_heads: usize,
    kv_heads: usize,
    head_dim: usize,
) -> (enabled: bool)
    ensures
        enabled == splitkv_enabled(
            *switches,
            query_tokens,
            key_tokens,
            query_heads,
            kv_heads,
            head_dim,
        ),
{
    if switches.no_splitkv {
        return false;
    }
    query_tokens <= 64 && key_tokens > query_tokens && query_heads > kv_heads && (head_dim == 128
        || head_dim == 256)
}

/// Whether the head-256 adapter folds a decode step's groups into its rows.
pub open spec fn folds_groups(build: AttentionBuild, extents: AttentionExtents) -> bool {
    build.fa2_head_special && extents.head_dim == 256 && extents.query_tokens == 1
        && extents.query_heads > extents.kv_heads
}

/// The number of splits, planned for the shape that the kernel runs.
pub open spec fn split_count(ctx: CudaContext, build: AttentionBuild, extents: AttentionExtents) -> int {
    let multiprocessors = ctx.caps.multiprocessor_count as usize;
    if folds_groups(build, extents) {
        planned_splits(
            extents.batches,
            extents.query_heads / extents.kv_heads,
            extents.key_tokens,
            extents.kv_heads,
            extents.head_dim,
            multiprocessors,
        )
    } else {
        planned_splits(
            extents.batches,
            extents.query_tokens,
            extents.key_tokens,
            extents.query_heads,
            extents.head_dim,
            multiprocessors,
        )
    }
}

/// The greatest number of parts that temporary memory is held for.
pub open spec fn max_splits(extents: AttentionExtents) -> int {
    let count = tiles(extents.key_tokens as int, key_tile(extents.head_dim as int));
    if count < 128 {
        count
    } else {
        128
    }
}

/// Whether the partial outputs of a split launch have an element count.
pub open spec fn o_accum_fits(extents: AttentionExtents) -> bool {
    let s = max_splits(extents);
    &&& s * extents.batches <= usize::MAX
    &&& s * extents.batches * extents.query_tokens <= usize::MAX
    &&& s * extents.batches * extents.query_tokens * extents.query_heads <= usize::MAX
    &&& s * extents.batches * extents.query_tokens * extents.query_heads * extents.head_dim
        <= usize::MAX
}

pub open spec fn o_accum(extents: AttentionExtents) -> int {
    max_splits(extents) * extents.batches * extents.query_tokens * extents.query_heads
        * extents.head_dim
}

/// What keeps a split launch from its temporary memory.
pub open spec fn split_sizes_problem(extents: AttentionExtents) -> Option<Error> {
    first_of(
        lse_problem(
            extents.batches,
            extents.query_heads,
            extents.query_tokens,
            SPLIT_LSE_OVERFLOW,
            SPLIT_LSE_BYTE_OVERFLOW,
        ),
        if max_splits(extents) * extents.lse() > usize::MAX || max_splits(extents) * extents.lse()
            * 4 > usize::MAX {
            Some(Error::Other(SPLIT_ACCUM_OVERFLOW))
        } else if !o_accum_fits(extents) {
            Some(Error::Other(SPLIT_O_OVERFLOW))
        } else if o_accum(extents) * 4 > usize::MAX {
            Some(Error::Other(SPLIT_O_BYTE_OVERFLOW))
        } else {
            None
        },
    )
}

pub open spec fn splitkv_problem(q: Tensor, k: Tensor, v: Tensor, extents: AttentionExtents) -> Option<
    Error,
> {
    first_of(split_sizes_problem(extents), pointers_problem(q, k, v))
}

/// A launch that is split along the keys, over device addresses.
pub open spec fn splitkv_at(
    ctx: CudaContext,
    build: AttentionBuild,
    query: usize,
    key: usize,
    value: usize,
    output_bytes: usize,
    extents: AttentionExtents,
    causal: bool,
) -> Fa2Launch {
    Fa2Launch {
        split: Some(
            SplitWorkspace {
                splits: split_count(ctx, build, extents) as i32,
                lse_accum_bytes: (max_splits(extents) * extents.lse() * 4) as usize,
                o_accum_bytes: (o_accum(extents) * 4) as usize,
            },
        ),
        ..fa2_at(
            if causal {
                Fa2Kernel::Bf16CausalSplit
            } else {
                Fa2Kernel::Bf16Split
            },
            query,
            key,
            value,
            output_bytes,
            extents,
        )
    }
}

pub open spec fn splitkv_launch(
    ctx: CudaContext,
    build: AttentionBuild,
    q: Tensor,
    k: Tensor,
    v: Tensor,
    extents: AttentionExtents,
    causal: bool,
) -> Fa2Launch {
    splitkv_at(
        ctx,
        build,
        q.buffer.address,
        k.buffer.address,
        v.buffer.address,
        tensor_size(q) as usize,
        extents,
        causal,
    )
}

/// Attention over BF16 heads at device addresses, split along the keys.
///
/// The split is planned for the shape that the kernel actually runs: the
/// head-256 adapter folds a decode step's groups into the row dimension, so
/// there are `query_heads / kv_heads` rows of `kv_heads` heads.
pub fn splitkv_over(
    ctx: &CudaContext,
    build: &AttentionBuild,
    query: usize,
    key: usize,
    value: usize,
    output_bytes: usize,
    extents: &AttentionExtents,
    causal: bool,
) -> (result: Result<Fa2Launch, Error>)
    requires
        folds_groups(*build, *extents) ==> extents.kv_heads > 0,
    ensures
        result == unless(
            split_sizes_problem(*extents),
            splitkv_at(*ctx, *build, query, key, value, output_bytes, *extents, causal),
        ),
{
    let multiprocessors: usize = ctx.caps.multiprocessor_count as usize;
    let splits: usize = if build.fa2_head_special && extents.head_dim == 256
        && extents.query_tokens == 1 && extents.query_heads > extents.kv_heads {
        plan_fa2_split_count(
            extents.batches,
            extents.query_heads / extents.kv_heads,
            extents.key_tokens,
            extents.kv_heads,
            extents.head_dim,
            multiprocessors,
        )
    } else {
        plan_fa2_split_count(
            extents.batches,
            extents.query_tokens,
            extents.key_tokens,
            extents.query_heads,
            extents.head_dim,
            multiprocessors,
        )
    };
    let elements: usize = lse_elements(
        extents.batches,
        extents.query_heads,
        extents.query_tokens,
        SPLIT_LSE_OVERFLOW,
    )?;
    let lse_bytes: usize = floats(elements, SPLIT_LSE_BYTE_OVERFLOW)?;
    let tile_rows: usize = key_tile_rows(extents.head_dim);
    let count: usize = tile_count(extents.key_tokens, tile_rows);
    let most: usize = if count < 128 {
        count
    } else {
        128
    };
    let accum: usize = match most.checked_mul(elements) {
        Some(value) => value,
        None => {
            return Err(Error::Other(SPLIT_ACCUM_OVERFLOW));
        },
    };
    let lse_accum_bytes: usize = floats(accum, SPLIT_ACCUM_OVERFLOW)?;
    let partial: usize = o_accum_elements(most, extents)?;
    let o_accum_bytes: usize = floats(partial, SPLIT_O_BYTE_OVERFLOW)?;
    let kernel = if causal {
        Fa2Kernel::Bf16CausalSplit
    } else {
        Fa2Kernel::Bf16Split
    };
    let mut launch = launch_at(kernel, query, key, value, output_bytes, extents, lse_bytes);
    launch.split = Some(SplitWorkspace { splits: splits as i32, lse_accum_bytes, o_accum_bytes });
    Ok(launch)
}

/// Attention over BF16 heads, split along the keys.
pub fn fa2_attention_splitkv(
    ctx: &CudaContext,
    build: &AttentionBuild,
    q: &Tensor,
    k: &Tensor,
    v: &Tensor,
    extents: &AttentionExtents,
    causal: bool,
) -> (result: Result<Fa2Launch, Error>)
    requires
        tensor_fits(*q),
        folds_groups(*build, *extents) ==> extents.kv_heads > 0,
    ensures
        result == unless(
            splitkv_problem(*q, *k, *v, *extents),
            splitkv_launch(*ctx, *build, *q, *k, *v, *extents, causal),
        ),
        result matches Ok(launch) ==> {
            &&& launch.query == q.buffer.address
            &&& launch.key == k.buffer.address
            &&& launch.value == v.buffer.address
            &&& launch.batches == extents.batches as i32
            &&& launch.query_tokens == extents.query_tokens as i32
            &&& launch.key_tokens == extents.key_tokens as i32
            &&& launch.query_heads == extents.query_heads as i32
            &&& launch.kv_heads == extents.kv_heads as i32
            &&& launch.head_dim == extents.head_dim as i32
            &&& launch.scale_dim == extents.head_dim
        },
{
    let launch = splitkv_over(
        ctx,
        build,
        q.buffer.address,
        k.buffer.address,
        v.buffer.address,
        tensor_bytes(q),
        extents,
        causal,
    )?;
    gpu_ptr(q)?;
    gpu_ptr(k)?;
    gpu_ptr(v)?;
    Ok(launch)
}

fn o_accum_elements(most: usize, extents: &AttentionExtents) -> (result: Result<usize, Error>)
    requires
        most == max_splits(*extents),
    ensures
        result == (if o_accum_fits(*extents) {
            Ok::<usize, Error>(o_accum(*extents) as usize)
        } else {
            Err(Error::Other(SPLIT_O_OVERFLOW))
        }),
{
    match most.checked_mul(extents.batches) {
        Some(a) => match a.checked_mul(extents.query_tokens) {
            Some(b) => match b.checked_mul(extents.query_heads) {
                Some(c) => match c.checked_mul(extents.head_dim) {
                    Some(d) => Ok(d),
                    None => Err(Error::Other(SPLIT_O_OVERFLOW)),
                },
                None => Err(Error::Other(SPLIT_O_OVERFLOW)),
            },
            None => Err(Error::Other(SPLIT_O_OVERFLOW)),
        },
        None => Err(Error::Other(SPLIT_O_OVERFLOW)),
    }
}

/// A split launch never runs with more parts than it holds memory for.
pub proof fn lemma_splits_have_memory(
    ctx: CudaContext,
    build: AttentionBuild,
    extents: AttentionExtents,
)
    requires
        extents.key_tokens > 0,
        folds_groups(build, extents) ==> extents.kv_heads > 0,
    ensures
        1 <= split_count(ctx, build, extents) <= max_splits(extents),
{
    super::split::lemma_planned_splits_are_bounded(
        extents.batches,
        if folds_groups(build, extents) {
            extents.query_heads / extents.kv_heads
        } else {
            extents.query_tokens
        },
        extents.key_tokens,
        if folds_groups(build, extents) {
            extents.kv_heads
        } else {
            extents.query_heads
        },
        extents.head_dim,
        ctx.caps.multiprocessor_count as usize,
    );
}

} // verus!
