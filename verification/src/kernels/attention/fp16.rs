//! Which kernel runs FP16 attention of a shape.

use super::super::contracts::{
    allocate_matrix, first_of, gpu_ptr, matrix_extents, matrix_output, matrix_shape,
    output_problem, pointer_problem, pointers_problem, positive_bits, same_dims, tensor_fits,
    unless, MatrixOutput,
};
use super::super::elementwise::{
    bias_f16, bias_f16_launch, bias_f16_problem, bias_matches, check_bias, concat_launch,
    concat_problem, concat_rows_f16, BiasLaunch, ConcatLaunch, CONCAT_F16,
};
use super::bf16::{
    all_of, check_mha, is_siglip, launch_mha, launch_mqa, mha_extents, mha_launch, mha_matches,
    mqa_extents, mqa_launch, MhaRoute, MqaKernel, MqaLaunch, MqaRoute,
};
use super::fa2::{
    fa2_attention_f16, fa2_f16_problem, fa2_launch, AttentionExtents, Fa2Kernel, Fa2Launch,
};
use super::features::AttentionBuild;
use super::qkv::{split_bias_launch, split_bias_problem, split_qkv_bias_f16, SplitBiasLaunch};
use crate::error::Error;
use crate::types::{DType, Tensor};
use vstd::prelude::*;

verus! {

/// What is wrong with an operand of another type than FP16.
pub open spec fn f16_problem(tensor: Tensor) -> Option<Error> {
    if tensor.dtype != DType::F16 {
        Some(Error::DTypeMismatch { expected: DType::F16, got: tensor.dtype })
    } else {
        None
    }
}

fn require_f16(tensor: &Tensor) -> (result: Result<(), Error>)
    ensures
        result == unless(f16_problem(*tensor), ()),
{
    if tensor.dtype != DType::F16 {
        return Err(Error::DTypeMismatch { expected: DType::F16, got: tensor.dtype });
    }
    Ok(())
}

/// Keys and values that are put together before attention, and how many there
/// are.
#[derive(Clone, Copy, Debug, PartialEq, Eq, Structural)]
pub struct PrefixSuffix {
    pub key: ConcatLaunch,
    pub value: ConcatLaunch,
    pub key_tokens: usize,
}

pub const PREFIX_MISMATCH: &'static str = "static inference MQA shape mismatch";

/// Whether prefix and suffix continue each other and match the queries.
pub open spec fn prefix_matches(
    q: Tensor,
    prefix_k: Tensor,
    prefix_v: Tensor,
    suffix_k: Tensor,
    suffix_v: Tensor,
) -> bool {
    &&& q.dims@.len() == 3
    &&& prefix_k.dims@.len() == 2
    &&& suffix_k.dims@.len() == 2
    &&& prefix_v.dims@ == prefix_k.dims@
    &&& suffix_v.dims@ == suffix_k.dims@
    &&& q.dims@[0] == suffix_k.dims@[0]
    &&& q.dims@[2] == prefix_k.dims@[1]
    &&& q.dims@[2] == suffix_k.dims@[1]
}

pub open spec fn prefix_problem(
    q: Tensor,
    prefix_k: Tensor,
    prefix_v: Tensor,
    suffix_k: Tensor,
    suffix_v: Tensor,
) -> Option<Error> {
    first_of(
        f16_problem(q),
        first_of(
            f16_problem(prefix_k),
            first_of(
                f16_problem(prefix_v),
                first_of(
                    f16_problem(suffix_k),
                    first_of(
                        f16_problem(suffix_v),
                        if !prefix_matches(q, prefix_k, prefix_v, suffix_k, suffix_v) {
                            Some(Error::Other(PREFIX_MISMATCH))
                        } else {
                            first_of(
                                concat_problem(DType::F16, CONCAT_F16, prefix_k, suffix_k),
                                concat_problem(DType::F16, CONCAT_F16, prefix_v, suffix_v),
                            )
                        },
                    ),
                ),
            ),
        ),
    )
}

/// Exact MQA for the static inference action expert. Prefix and suffix K/V are
/// `[tokens, head_dim]`; Q and the output are `[suffix, heads, head_dim]`.
///
/// Once prefix and suffix are put together, `cublas_mqa_f16` attends to them.
pub fn mqa_prefix_suffix_f16(
    q: &Tensor,
    prefix_k: &Tensor,
    prefix_v: &Tensor,
    suffix_k: &Tensor,
    suffix_v: &Tensor,
) -> (result: Result<PrefixSuffix, Error>)
    requires
        prefix_matches(*q, *prefix_k, *prefix_v, *suffix_k, *suffix_v) ==> prefix_k.dims@[0]
            + suffix_k.dims@[0] <= usize::MAX,
    ensures
        result == unless(
            prefix_problem(*q, *prefix_k, *prefix_v, *suffix_k, *suffix_v),
            PrefixSuffix {
                key: concat_launch(DType::F16, *prefix_k, *suffix_k),
                value: concat_launch(DType::F16, *prefix_v, *suffix_v),
                key_tokens: (prefix_k.dims@[0] + suffix_k.dims@[0]) as usize,
            },
        ),
{
    require_f16(q)?;
    require_f16(prefix_k)?;
    require_f16(prefix_v)?;
    require_f16(suffix_k)?;
    require_f16(suffix_v)?;
    if q.dims.len() != 3 || prefix_k.dims.len() != 2 || suffix_k.dims.len() != 2 || !same_dims(
        &prefix_v.dims,
        &prefix_k.dims,
    ) || !same_dims(&suffix_v.dims, &suffix_k.dims) || q.dims[0] != suffix_k.dims[0] || q.dims[2]
        != prefix_k.dims[1] || q.dims[2] != suffix_k.dims[1] {
        return Err(Error::Other(PREFIX_MISMATCH));
    }
    let key = concat_rows_f16(prefix_k, suffix_k)?;
    let value = concat_rows_f16(prefix_v, suffix_v)?;
    Ok(PrefixSuffix { key, value, key_tokens: prefix_k.dims[0] + suffix_k.dims[0] })
}

/// FP16 attention of many query heads over one contiguous key head.
pub fn cublas_mqa_f16(q: &Tensor, k: &Tensor, v: &Tensor, key_tokens: usize) -> (result: Result<
    MqaLaunch,
    Error,
>)
    requires
        q.dims@.len() == 3,
        tensor_fits(*q),
    ensures
        result == unless(
            pointers_problem(*q, *k, *v),
            mqa_launch(MqaKernel::CublasF16, *q, *k, *v, key_tokens),
        ),
{
    launch_mqa(MqaKernel::CublasF16, q, k, v, key_tokens)
}

pub const CACHED_MISMATCH: &'static str = "static inference cached MQA shape mismatch";

pub open spec fn cached_matches(q: Tensor, k: Tensor, v: Tensor, key_tokens: usize) -> bool {
    &&& q.dims@.len() == 3
    &&& k.dims@.len() == 2
    &&& v.dims@ == k.dims@
    &&& k.dims@[0] == key_tokens
    &&& q.dims@[2] == k.dims@[1]
}

pub open spec fn cached_problem(q: Tensor, k: Tensor, v: Tensor, key_tokens: usize) -> Option<Error> {
    first_of(
        f16_problem(q),
        first_of(
            f16_problem(k),
            first_of(
                f16_problem(v),
                if !cached_matches(q, k, v, key_tokens) {
                    Some(Error::Other(CACHED_MISMATCH))
                } else {
                    pointers_problem(q, k, v)
                },
            ),
        ),
    )
}

/// MQA over an already contiguous K/V cache.
pub fn mqa_cached_f16(q: &Tensor, k_cache: &Tensor, v_cache: &Tensor, key_tokens: usize) -> (result:
    Result<MqaLaunch, Error>)
    requires
        tensor_fits(*q),
    ensures
        result == unless(
            cached_problem(*q, *k_cache, *v_cache, key_tokens),
            mqa_launch(MqaKernel::CublasF16, *q, *k_cache, *v_cache, key_tokens),
        ),
{
    require_f16(q)?;
    require_f16(k_cache)?;
    require_f16(v_cache)?;
    if q.dims.len() != 3 || k_cache.dims.len() != 2 || !same_dims(&v_cache.dims, &k_cache.dims)
        || k_cache.dims[0] != key_tokens || q.dims[2] != k_cache.dims[1] {
        return Err(Error::Other(CACHED_MISMATCH));
    }
    cublas_mqa_f16(q, k_cache, v_cache, key_tokens)
}

/// `apxinf_static_fa2_f16_strided_qkv` over a packed projection. The input is
/// the biased projection where `bias` is run first; the output is
/// `[tokens, heads, head_dim]`.
#[derive(Clone, Copy, Debug, PartialEq, Eq, Structural)]
pub struct PackedLaunch {
    pub bias: Option<BiasLaunch>,
    pub packed: usize,
    pub batches: i32,
    pub tokens: i32,
    pub heads: i32,
    pub head_dim: i32,
    pub scale_dim: usize,
    pub output: MatrixOutput,
    pub lse_bytes: usize,
}

#[derive(Clone, Copy, Debug, PartialEq, Eq, Structural)]
pub enum PackedRoute {
    /// Row-strided views of the projection.
    Strided(PackedLaunch),
    /// A split projection, and then `mha_f16` over its parts.
    Split(SplitBiasLaunch),
}

pub const PACKED_WIDTH: &'static str = "packed vision QKV width overflow";

pub const PACKED_MISMATCH: &'static str = "packed vision QKV expects FP16 [tokens, packed width]";

pub const PACKED_LSE: &'static str = "packed FA2 FP16 LSE size overflow";

pub const PACKED_LSE_BYTES: &'static str = "packed FA2 FP16 LSE byte size overflow";

/// Whether the packed kernel covers a shape.
pub open spec fn packed_supported(
    build: AttentionBuild,
    tokens_per_batch: usize,
    heads: usize,
    head_dim: usize,
) -> bool {
    build.fa2_f16_sm100 && tokens_per_batch == 256 && heads == 16 && head_dim == 72
}

/// Whether a projection holds queries, keys and values for whole batches.
pub open spec fn packed_matches(
    qkv: Tensor,
    bias: Option<&Tensor>,
    tokens_per_batch: usize,
    heads: usize,
    head_dim: usize,
) -> bool {
    &&& qkv.dtype == DType::F16
    &&& qkv.dims@[1] == heads * head_dim * 3
    &&& tokens_per_batch != 0
    &&& qkv.dims@[0] % tokens_per_batch == 0
    &&& bias_matches(bias, DType::F16, qkv.dims@[1])
}

pub open spec fn packed_route(
    build: AttentionBuild,
    qkv: Tensor,
    bias: Option<&Tensor>,
    tokens_per_batch: usize,
    heads: usize,
    head_dim: usize,
) -> Result<PackedRoute, Error> {
    match matrix_extents(qkv, "packed vision QKV") {
        Err(error) => Err(error),
        Ok((tokens, _)) => if heads * head_dim > usize::MAX || heads * head_dim * 3 > usize::MAX {
            Err(Error::Other(PACKED_WIDTH))
        } else if !packed_matches(qkv, bias, tokens_per_batch, heads, head_dim) {
            Err(Error::Other(PACKED_MISMATCH))
        } else if packed_supported(build, tokens_per_batch, heads, head_dim) {
            unless(
                first_of(
                    if bias is Some {
                        bias_f16_problem(qkv, bias)
                    } else {
                        None
                    },
                    first_of(
                        output_problem(DType::F16, tokens as int, heads * head_dim),
                        if tokens * heads > usize::MAX {
                            Some(Error::Other(PACKED_LSE))
                        } else if tokens * heads * 4 > usize::MAX {
                            Some(Error::Other(PACKED_LSE_BYTES))
                        } else {
                            pointer_problem(qkv)
                        },
                    ),
                ),
                PackedRoute::Strided(
                    PackedLaunch {
                        bias: if bias is Some {
                            Some(bias_f16_launch(qkv, bias))
                        } else {
                            None
                        },
                        packed: qkv.buffer.address,
                        batches: (tokens / tokens_per_batch) as i32,
                        tokens: tokens_per_batch as i32,
                        heads: heads as i32,
                        head_dim: head_dim as i32,
                        scale_dim: head_dim,
                        output: matrix_output(DType::F16, tokens, (heads * head_dim) as usize),
                        lse_bytes: (tokens * heads * 4) as usize,
                    },
                ),
            )
        } else {
            unless(
                split_bias_problem(DType::F16, qkv, bias, heads, head_dim),
                PackedRoute::Split(split_bias_launch(DType::F16, qkv, bias, heads, head_dim)),
            )
        },
    }
}

/// Apply QKV bias without splitting the projection, then let FA2 consume Q/K/V
/// through row-strided views of `[tokens, 3 * heads * dim]`. This avoids
/// materializing three layout copies for SigLIP attention.
pub fn mha_packed_qkv_bias_f16(
    build: &AttentionBuild,
    qkv: &Tensor,
    bias: Option<&Tensor>,
    tokens_per_batch: usize,
    heads: usize,
    head_dim: usize,
) -> (result: Result<PackedRoute, Error>)
    ensures
        result == packed_route(*build, *qkv, bias, tokens_per_batch, heads, head_dim),
{
    let (tokens, width) = matrix_shape(qkv, "packed vision QKV")?;
    let projection: usize = match heads.checked_mul(head_dim) {
        Some(projection) => projection,
        None => {
            return Err(Error::Other(PACKED_WIDTH));
        },
    };
    let packed_width: usize = match projection.checked_mul(3) {
        Some(width) => width,
        None => {
            return Err(Error::Other(PACKED_WIDTH));
        },
    };
    if qkv.dtype != DType::F16 || width != packed_width || tokens_per_batch == 0 || tokens
        % tokens_per_batch != 0 || !check_bias(bias, DType::F16, width) {
        return Err(Error::Other(PACKED_MISMATCH));
    }
    if build.fa2_f16_sm100 && tokens_per_batch == 256 && heads == 16 && head_dim == 72 {
        let biased: Option<BiasLaunch> = match bias {
            Some(value) => Some(bias_f16(qkv, Some(value))?),
            None => None,
        };
        let output = allocate_matrix(DType::F16, tokens, projection)?;
        let elements: usize = match tokens.checked_mul(heads) {
            Some(elements) => elements,
            None => {
                return Err(Error::Other(PACKED_LSE));
            },
        };
        let lse_bytes: usize = match elements.checked_mul(4) {
            Some(bytes) => bytes,
            None => {
                return Err(Error::Other(PACKED_LSE_BYTES));
            },
        };
        let packed: usize = gpu_ptr(qkv)?;
        return Ok(
            PackedRoute::Strided(
                PackedLaunch {
                    bias: biased,
                    packed,
                    batches: (tokens / tokens_per_batch) as i32,
                    tokens: tokens_per_batch as i32,
                    heads: heads as i32,
                    head_dim: head_dim as i32,
                    scale_dim: head_dim,
                    output,
                    lse_bytes,
                },
            ),
        );
    }
    let split = split_qkv_bias_f16(qkv, bias, heads, head_dim)?;
    Ok(PackedRoute::Split(split))
}

pub const MHA_F16_MISMATCH: &'static str =
    "static inference MHA expects matching FP16 [tokens,heads,head_dim] tensors";

pub open spec fn mha_f16_route(
    build: AttentionBuild,
    q: Tensor,
    k: Tensor,
    v: Tensor,
    tokens_per_batch: usize,
) -> Result<MhaRoute, Error> {
    let extents = mha_extents(q, tokens_per_batch);
    if !mha_matches(DType::F16, q, k, v, tokens_per_batch) {
        Err(Error::Other(MHA_F16_MISMATCH))
    } else if build.fa2_f16_sm100 && is_siglip(q, tokens_per_batch) {
        unless(
            fa2_f16_problem(q, k, v, extents),
            MhaRoute::Fa2(fa2_launch(Fa2Kernel::F16, q, k, v, extents)),
        )
    } else {
        unless(
            pointers_problem(q, k, v),
            MhaRoute::FlashF16(mha_launch(q, k, v, tokens_per_batch)),
        )
    }
}

/// FP16 multi-head attention inside batches of `tokens_per_batch` rows.
pub fn mha_f16(build: &AttentionBuild, q: &Tensor, k: &Tensor, v: &Tensor, tokens_per_batch: usize) -> (result:
    Result<MhaRoute, Error>)
    requires
        tensor_fits(*q),
    ensures
        result == mha_f16_route(*build, *q, *k, *v, tokens_per_batch),
{
    if !check_mha(DType::F16, q, k, v, tokens_per_batch) {
        return Err(Error::Other(MHA_F16_MISMATCH));
    }
    if build.fa2_f16_sm100 && tokens_per_batch == 256 && q.dims[1] == 16 && q.dims[2] == 72 {
        let extents = AttentionExtents {
            batches: q.dims[0] / tokens_per_batch,
            query_tokens: tokens_per_batch,
            key_tokens: tokens_per_batch,
            query_heads: q.dims[1],
            kv_heads: q.dims[1],
            head_dim: q.dims[2],
        };
        let launch = fa2_attention_f16(q, k, v, &extents)?;
        return Ok(MhaRoute::Fa2(launch));
    }
    let launch = launch_mha(q, k, v, tokens_per_batch)?;
    Ok(MhaRoute::FlashF16(launch))
}

/// FP16 FlashAttention-2 of many query heads over one key head.
pub fn fa2_mqa_f16(q: &Tensor, k: &Tensor, v: &Tensor, key_tokens: usize) -> (result: Result<
    Fa2Launch,
    Error,
>)
    requires
        q.dims@.len() == 3,
        tensor_fits(*q),
    ensures
        result == unless(
            fa2_f16_problem(*q, *k, *v, mqa_extents(*q, key_tokens)),
            fa2_launch(Fa2Kernel::F16, *q, *k, *v, mqa_extents(*q, key_tokens)),
        ),
{
    let extents = AttentionExtents {
        batches: 1,
        query_tokens: q.dims[0],
        key_tokens,
        query_heads: q.dims[1],
        kv_heads: 1,
        head_dim: q.dims[2],
    };
    fa2_attention_f16(q, k, v, &extents)
}

pub const MQA_F16_MISMATCH: &'static str =
    "static inference self MQA expects Q [T,H,D], K/V [T,1,D] FP16";

pub open spec fn mqa_f16_matches(q: Tensor, k: Tensor, v: Tensor) -> bool {
    &&& all_of(DType::F16, q, k, v)
    &&& q.dims@.len() == 3
    &&& k.dims@.len() == 3
    &&& v.dims@ == k.dims@
    &&& k.dims@[0] == q.dims@[0]
    &&& k.dims@[1] == 1
    &&& k.dims@[2] == q.dims@[2]
}

pub open spec fn mqa_f16_route(build: AttentionBuild, q: Tensor, k: Tensor, v: Tensor) -> Result<
    MqaRoute,
    Error,
> {
    let extents = mqa_extents(q, k.dims@[0]);
    if !mqa_f16_matches(q, k, v) {
        Err(Error::Other(MQA_F16_MISMATCH))
    } else if build.fa2_f16_sm100 {
        unless(
            fa2_f16_problem(q, k, v, extents),
            MqaRoute::Fa2(fa2_launch(Fa2Kernel::F16, q, k, v, extents)),
        )
    } else {
        unless(
            pointers_problem(q, k, v),
            MqaRoute::Mqa(mqa_launch(MqaKernel::CublasF16, q, k, v, k.dims@[0])),
        )
    }
}

/// FP16 self-attention of many query heads over one key head.
pub fn mqa_f16(build: &AttentionBuild, q: &Tensor, k: &Tensor, v: &Tensor) -> (result: Result<
    MqaRoute,
    Error,
>)
    requires
        tensor_fits(*q),
    ensures
        result == mqa_f16_route(*build, *q, *k, *v),
{
    if q.dtype != DType::F16 || k.dtype != DType::F16 || v.dtype != DType::F16 || q.dims.len() != 3
        || k.dims.len() != 3 || !same_dims(&v.dims, &k.dims) || k.dims[0] != q.dims[0]
        || k.dims[1] != 1 || k.dims[2] != q.dims[2] {
        return Err(Error::Other(MQA_F16_MISMATCH));
    }
    if build.fa2_f16_sm100 {
        let launch = fa2_mqa_f16(q, k, v, k.dims[0])?;
        return Ok(MqaRoute::Fa2(launch));
    }
    let launch = cublas_mqa_f16(q, k, v, k.dims[0])?;
    Ok(MqaRoute::Mqa(launch))
}

/// `apxinf_static_fa2_f16_direct_e4m3_522` over 522 tokens, 8 query heads and
/// one key head of 256. The output is E4M3 in the query's shape.
#[derive(Clone, Copy, Debug, PartialEq, Eq, Structural)]
pub struct DirectE4m3Launch {
    pub query: usize,
    pub key: usize,
    pub value: usize,
    pub output_scale: u32,
    pub output_bytes: usize,
    pub lse_bytes: usize,
}

pub const E4M3_MISMATCH: &'static str =
    "FA2 direct E4M3 requires FP16 Q [522,8,256], K/V [522,1,256] and finite positive scale";

pub const E4M3_BUILD: &'static str = "FA2 direct E4M3 requires an SM100-family FA2 build";

pub open spec fn e4m3_matches(q: Tensor, k: Tensor, v: Tensor, output_scale: u32) -> bool {
    &&& all_of(DType::F16, q, k, v)
    &&& q.dims@ == seq![522usize, 8, 256]
    &&& k.dims@ == seq![522usize, 1, 256]
    &&& v.dims@ == k.dims@
    &&& positive_bits(output_scale)
}

pub open spec fn e4m3_problem(
    build: AttentionBuild,
    q: Tensor,
    k: Tensor,
    v: Tensor,
    output_scale: u32,
) -> Option<Error> {
    if !e4m3_matches(q, k, v, output_scale) {
        Some(Error::Other(E4M3_MISMATCH))
    } else if !build.fa2_direct_e4m3_sm100 {
        Some(Error::Other(E4M3_BUILD))
    } else {
        pointers_problem(q, k, v)
    }
}

/// FP16 self-attention with a directly quantized result, for one shape; the
/// scale is given by its bits.
pub fn mqa_f16_e4m3_522(build: &AttentionBuild, q: &Tensor, k: &Tensor, v: &Tensor, output_scale: u32) -> (result:
    Result<DirectE4m3Launch, Error>)
    ensures
        result == unless(
            e4m3_problem(*build, *q, *k, *v, output_scale),
            DirectE4m3Launch {
                query: q.buffer.address,
                key: k.buffer.address,
                value: v.buffer.address,
                output_scale,
                output_bytes: 1_069_056,
                lse_bytes: 16_704,
            },
        ),
{
    let expected_q: Vec<usize> = vec![522, 8, 256];
    let expected_k: Vec<usize> = vec![522, 1, 256];
    assert(expected_q@ =~= seq![522usize, 8, 256]);
    assert(expected_k@ =~= seq![522usize, 1, 256]);
    if q.dtype != DType::F16 || k.dtype != DType::F16 || v.dtype != DType::F16 || !same_dims(
        &q.dims,
        &expected_q,
    ) || !same_dims(&k.dims, &expected_k) || !same_dims(&v.dims, &k.dims)
        || !super::super::contracts::is_positive(output_scale) {
        return Err(Error::Other(E4M3_MISMATCH));
    }
    if !build.fa2_direct_e4m3_sm100 {
        return Err(Error::Other(E4M3_BUILD));
    }
    let query: usize = gpu_ptr(q)?;
    let key: usize = gpu_ptr(k)?;
    let value: usize = gpu_ptr(v)?;
    Ok(
        DirectE4m3Launch {
            query,
            key,
            value,
            output_scale,
            output_bytes: 1_069_056,
            lse_bytes: 16_704,
        },
    )
}

} // verus!
