//! Unmasked attention over dense BF16 heads.

use super::super::contracts::{
    allocate_matrix, first_of, gpu_ptr, matrix_output, output_problem, pointers_problem,
    require_device, same_dims, tensor_fits, unless, MatrixOutput,
};
use super::bf16::{all_of, devices_problem};
use super::fa2::{fa2_attention, fa2_launch, fa2_problem, AttentionExtents, Fa2Kernel, Fa2Launch};
use super::features::{AttentionBuild, AttentionSwitches};
use crate::context::CudaContext;
use crate::error::Error;
use crate::types::{DType, Device, Tensor};
use vstd::prelude::*;

verus! {

#[derive(Clone, Copy, Debug, PartialEq, Eq, Structural)]
pub enum VisionKernel {
    /// `apxinf_vision_sdpa_bf16`: one warp, any head dimension.
    SingleWarp,
    /// `apxinf_vision_sdpa_bf16_v3`: four warps, head dimension 64.
    Head64,
    /// `apxinf_vision_sdpa_bf16_v3_hd72`: four warps, head dimension 72.
    Head72,
}

/// A vision attention launch; the softmax scale is one over the root of
/// `scale_dim`, and the zeroed output is `[seq_len, n_heads * head_dim]`.
#[derive(Clone, Copy, Debug, PartialEq, Eq, Structural)]
pub struct VisionLaunch {
    pub kernel: VisionKernel,
    pub query: usize,
    pub key: usize,
    pub value: usize,
    pub seq_len: u32,
    pub heads: u32,
    pub head_dim: u32,
    pub scale_dim: usize,
    pub output: MatrixOutput,
}

#[derive(Clone, Copy, Debug, PartialEq, Eq, Structural)]
pub enum DenseRoute {
    /// FlashAttention-2, its output read as `rows` rows of `cols`.
    Fa2 { launch: Fa2Launch, rows: usize, cols: usize },
    Vision(VisionLaunch),
    Portable(PortableLaunch),
}

pub const VISION_DTYPE: &'static str = "vision_sdpa: only BF16 supported";

pub const VISION_HEAD: &'static str = "vision_sdpa: head_dim out of range";

pub open spec fn vision_kernel(switches: AttentionSwitches, head_dim: usize) -> VisionKernel {
    if switches.vision_legacy {
        VisionKernel::SingleWarp
    } else if head_dim == 64 {
        VisionKernel::Head64
    } else if head_dim == 72 {
        VisionKernel::Head72
    } else {
        VisionKernel::SingleWarp
    }
}

pub open spec fn dense_extents(rows: usize, keys: usize, heads: usize, head_dim: usize) -> AttentionExtents {
    AttentionExtents {
        batches: 1,
        query_tokens: rows,
        key_tokens: keys,
        query_heads: heads,
        kv_heads: heads,
        head_dim,
    }
}

pub open spec fn vision_route(
    build: AttentionBuild,
    switches: AttentionSwitches,
    q: Tensor,
    k: Tensor,
    v: Tensor,
    seq_len: usize,
    n_heads: usize,
    head_dim: usize,
) -> Result<DenseRoute, Error> {
    let extents = dense_extents(seq_len, seq_len, n_heads, head_dim);
    if !all_of(DType::BF16, q, k, v) {
        Err(Error::Other(VISION_DTYPE))
    } else if head_dim == 0 || head_dim > 256 {
        Err(Error::Other(VISION_HEAD))
    } else if build.has_fa2() && !switches.vision_legacy {
        unless(
            fa2_problem(q, k, v, extents),
            DenseRoute::Fa2 {
                launch: fa2_launch(Fa2Kernel::Bf16, q, k, v, extents),
                rows: seq_len,
                cols: (n_heads * head_dim) as usize,
            },
        )
    } else {
        unless(
            pointers_problem(q, k, v),
            DenseRoute::Vision(
                VisionLaunch {
                    kernel: vision_kernel(switches, head_dim),
                    query: q.buffer.address,
                    key: k.buffer.address,
                    value: v.buffer.address,
                    seq_len: seq_len as u32,
                    heads: n_heads as u32,
                    head_dim: head_dim as u32,
                    scale_dim: head_dim,
                    output: matrix_output(DType::BF16, seq_len, (n_heads * head_dim) as usize),
                },
            ),
        )
    }
}

/// Non-causal full attention for the vision tower. Q/K/V are each
/// `[seq, n_heads, head_dim]` BF16; the output is `[seq, n_heads * head_dim]`.
/// Head dimensions 1 to 256 are supported. FlashAttention-2 runs it where it is
/// compiled; otherwise the multi-warp kernels run dimensions 64 and 72, and the
/// single-warp kernel the others.
pub fn vision(
    build: &AttentionBuild,
    switches: &AttentionSwitches,
    q: &Tensor,
    k: &Tensor,
    v: &Tensor,
    seq_len: usize,
    n_heads: usize,
    head_dim: usize,
) -> (result: Result<DenseRoute, Error>)
    requires
        tensor_fits(*q),
        all_of(DType::BF16, *q, *k, *v) && 0 < head_dim <= 256 ==> n_heads * head_dim
            <= usize::MAX,
        all_of(DType::BF16, *q, *k, *v) && 0 < head_dim <= 256 && !(build.has_fa2()
            && !switches.vision_legacy) ==> seq_len * n_heads <= usize::MAX && seq_len * n_heads
            * head_dim * 2 <= usize::MAX,
    ensures
        result == vision_route(*build, *switches, *q, *k, *v, seq_len, n_heads, head_dim),
{
    if q.dtype != DType::BF16 || k.dtype != DType::BF16 || v.dtype != DType::BF16 {
        return Err(Error::Other(VISION_DTYPE));
    }
    if head_dim == 0 || head_dim > 256 {
        return Err(Error::Other(VISION_HEAD));
    }
    if build.fa2() && !switches.vision_legacy {
        let extents = AttentionExtents {
            batches: 1,
            query_tokens: seq_len,
            key_tokens: seq_len,
            query_heads: n_heads,
            kv_heads: n_heads,
            head_dim,
        };
        let launch = fa2_attention(q, k, v, &extents)?;
        return Ok(DenseRoute::Fa2 { launch, rows: seq_len, cols: n_heads * head_dim });
    }
    let kernel = if switches.vision_legacy {
        VisionKernel::SingleWarp
    } else if head_dim == 64 {
        VisionKernel::Head64
    } else if head_dim == 72 {
        VisionKernel::Head72
    } else {
        VisionKernel::SingleWarp
    };
    let query: usize = gpu_ptr(q)?;
    let key: usize = gpu_ptr(k)?;
    let value: usize = gpu_ptr(v)?;
    assert(seq_len * n_heads * head_dim == seq_len * (n_heads * head_dim)) by (nonlinear_arith);
    Ok(
        DenseRoute::Vision(
            VisionLaunch {
                kernel,
                query,
                key,
                value,
                seq_len: seq_len as u32,
                heads: n_heads as u32,
                head_dim: head_dim as u32,
                scale_dim: head_dim,
                output: MatrixOutput {
                    dtype: DType::BF16,
                    rows: seq_len,
                    cols: n_heads * head_dim,
                    bytes: seq_len * n_heads * head_dim * 2,
                },
            },
        ),
    )
}

/// `apxinf_noncausal_sdpa_bf16`; the softmax scale is one over the root of
/// `scale_dim`.
#[derive(Clone, Copy, Debug, PartialEq, Eq, Structural)]
pub struct PortableLaunch {
    pub query: usize,
    pub key: usize,
    pub value: usize,
    pub query_len: u32,
    pub key_value_len: u32,
    pub heads: u32,
    pub head_dim: u32,
    pub scale_dim: usize,
    pub output: MatrixOutput,
}

pub const NONCAUSAL_DTYPE: &'static str = "noncausal_sdpa: only BF16 supported";

pub const NONCAUSAL_HEADS: &'static str =
    "noncausal_sdpa: expected non-zero heads and an even head_dim <= 64";

pub const NONCAUSAL_SHAPE: &'static str =
    "noncausal_sdpa: expected Q [query,heads,head_dim] and K/V [kv,heads,head_dim] with non-zero rows";

pub const NONCAUSAL_KEYS: &'static str =
    "noncausal_sdpa: portable key/value length exceeds 12287";

pub const NONCAUSAL_HIDDEN: &'static str = "noncausal_sdpa: hidden size overflow";

pub const NONCAUSAL_QUERY: &'static str = "noncausal_sdpa: query length exceeds CUDA ABI";

pub const NONCAUSAL_COUNT: &'static str = "noncausal_sdpa: head count exceeds CUDA ABI";

/// Whether queries, keys and values have the given heads and some rows.
pub open spec fn noncausal_shape(q: Tensor, k: Tensor, v: Tensor, n_heads: usize, head_dim: usize) -> bool {
    &&& q.dims@.len() == 3
    &&& k.dims@.len() == 3
    &&& v.dims@.len() == 3
    &&& q.dims@[1] == n_heads
    &&& q.dims@[2] == head_dim
    &&& k.dims@[1] == n_heads
    &&& k.dims@[2] == head_dim
    &&& v.dims@ == k.dims@
    &&& q.dims@[0] != 0
    &&& k.dims@[0] != 0
}

pub open spec fn noncausal_problem(
    ctx: CudaContext,
    build: AttentionBuild,
    q: Tensor,
    k: Tensor,
    v: Tensor,
    n_heads: usize,
    head_dim: usize,
) -> Option<Error> {
    if !all_of(DType::BF16, q, k, v) {
        Some(Error::Other(NONCAUSAL_DTYPE))
    } else if n_heads == 0 || head_dim == 0 || head_dim > 64 || head_dim % 2 != 0 {
        Some(Error::Other(NONCAUSAL_HEADS))
    } else if !noncausal_shape(q, k, v, n_heads, head_dim) {
        Some(Error::Other(NONCAUSAL_SHAPE))
    } else {
        first_of(
            devices_problem(Device::Cuda(ctx.device_id), q, k, v),
            if !build.has_fa2() && k.dims@[0] > 12_287 {
                Some(Error::Other(NONCAUSAL_KEYS))
            } else if n_heads * head_dim > usize::MAX {
                Some(Error::Other(NONCAUSAL_HIDDEN))
            } else if build.has_fa2() {
                fa2_problem(q, k, v, dense_extents(q.dims@[0], k.dims@[0], n_heads, head_dim))
            } else if q.dims@[0] > u32::MAX {
                Some(Error::Other(NONCAUSAL_QUERY))
            } else if n_heads > u32::MAX {
                Some(Error::Other(NONCAUSAL_COUNT))
            } else {
                output_problem(DType::BF16, q.dims@[0] as int, n_heads * head_dim)
            },
        )
    }
}

pub open spec fn noncausal_route(
    build: AttentionBuild,
    q: Tensor,
    k: Tensor,
    v: Tensor,
    n_heads: usize,
    head_dim: usize,
) -> DenseRoute {
    if build.has_fa2() {
        DenseRoute::Fa2 {
            launch: fa2_launch(
                Fa2Kernel::Bf16,
                q,
                k,
                v,
                dense_extents(q.dims@[0], k.dims@[0], n_heads, head_dim),
            ),
            rows: q.dims@[0],
            cols: (n_heads * head_dim) as usize,
        }
    } else {
        DenseRoute::Portable(
            PortableLaunch {
                query: q.buffer.address,
                key: k.buffer.address,
                value: v.buffer.address,
                query_len: q.dims@[0] as u32,
                key_value_len: k.dims@[0] as u32,
                heads: n_heads as u32,
                head_dim: head_dim as u32,
                scale_dim: head_dim,
                output: matrix_output(DType::BF16, q.dims@[0], (n_heads * head_dim) as usize),
            },
        )
    }
}

/// Full non-causal attention for contiguous BF16 query, key, and value tensors.
pub fn noncausal(
    ctx: &CudaContext,
    build: &AttentionBuild,
    q: &Tensor,
    k: &Tensor,
    v: &Tensor,
    n_heads: usize,
    head_dim: usize,
) -> (result: Result<DenseRoute, Error>)
    requires
        tensor_fits(*q),
    ensures
        result == unless(
            noncausal_problem(*ctx, *build, *q, *k, *v, n_heads, head_dim),
            noncausal_route(*build, *q, *k, *v, n_heads, head_dim),
        ),
{
    if q.dtype != DType::BF16 || k.dtype != DType::BF16 || v.dtype != DType::BF16 {
        return Err(Error::Other(NONCAUSAL_DTYPE));
    }
    if n_heads == 0 || head_dim == 0 || head_dim > 64 || head_dim % 2 != 0 {
        return Err(Error::Other(NONCAUSAL_HEADS));
    }
    if q.dims.len() != 3 || k.dims.len() != 3 || v.dims.len() != 3 || q.dims[1] != n_heads
        || q.dims[2] != head_dim || k.dims[1] != n_heads || k.dims[2] != head_dim || !same_dims(
        &v.dims,
        &k.dims,
    ) || q.dims[0] == 0 || k.dims[0] == 0 {
        return Err(Error::Other(NONCAUSAL_SHAPE));
    }
    require_device(ctx, q.device)?;
    require_device(ctx, k.device)?;
    require_device(ctx, v.device)?;
    let query_len: usize = q.dims[0];
    let keys: usize = k.dims[0];
    if !build.fa2() && keys > 12_287 {
        return Err(Error::Other(NONCAUSAL_KEYS));
    }
    let hidden: usize = match n_heads.checked_mul(head_dim) {
        Some(hidden) => hidden,
        None => {
            return Err(Error::Other(NONCAUSAL_HIDDEN));
        },
    };
    if build.fa2() {
        let extents = AttentionExtents {
            batches: 1,
            query_tokens: query_len,
            key_tokens: keys,
            query_heads: n_heads,
            kv_heads: n_heads,
            head_dim,
        };
        let launch = fa2_attention(q, k, v, &extents)?;
        return Ok(DenseRoute::Fa2 { launch, rows: query_len, cols: hidden });
    }
    if query_len > 0xffff_ffff {
        return Err(Error::Other(NONCAUSAL_QUERY));
    }
    if n_heads > 0xffff_ffff {
        return Err(Error::Other(NONCAUSAL_COUNT));
    }
    let output = allocate_matrix(DType::BF16, query_len, hidden)?;
    Ok(
        DenseRoute::Portable(
            PortableLaunch {
                query: q.buffer.address,
                key: k.buffer.address,
                value: v.buffer.address,
                query_len: query_len as u32,
                key_value_len: keys as u32,
                heads: n_heads as u32,
                head_dim: head_dim as u32,
                scale_dim: head_dim,
                output,
            },
        ),
    )
}

/// `apxinf_static_fa2_bf16_strided_qkv` over one batch.
#[derive(Clone, Copy, Debug, PartialEq, Eq, Structural)]
pub struct StridedLaunch {
    pub qkv: usize,
    pub tokens: i32,
    pub heads: i32,
    pub head_dim: i32,
    pub scale_dim: usize,
    pub output: MatrixOutput,
    pub lse_bytes: usize,
}

pub const STRIDED_RANK: &'static str = "strided QKV attention expects a rank-2 BF16 tensor";

pub const STRIDED_HIDDEN: &'static str = "strided QKV attention hidden size overflow";

pub const STRIDED_SHAPE: &'static str = "strided QKV attention expected CUDA BF16 [tokens, 3 * hidden]";

pub const STRIDED_LSE: &'static str = "strided QKV attention LSE size overflow";

pub const STRIDED_TOKENS: &'static str = "strided QKV attention token count exceeds i32";

pub const STRIDED_HEADS: &'static str = "strided QKV attention head count exceeds i32";

pub const STRIDED_BACKEND: &'static str =
    "strided QKV attention requires the in-tree BF16 FA2 backend";

/// Whether a projection holds queries, keys and values of the given heads.
pub open spec fn strided_matches(ctx: CudaContext, qkv: Tensor, n_heads: usize, head_dim: usize) -> bool {
    &&& n_heads != 0
    &&& head_dim != 0
    &&& head_dim <= 64
    &&& head_dim % 2 == 0
    &&& qkv.dims@[0] != 0
    &&& qkv.dims@[1] == 3 * (n_heads * head_dim)
    &&& qkv.device == Device::Cuda(ctx.device_id)
}

pub open spec fn strided_problem(
    ctx: CudaContext,
    build: AttentionBuild,
    qkv: Tensor,
    n_heads: usize,
    head_dim: usize,
) -> Option<Error> {
    if qkv.dtype != DType::BF16 || qkv.dims@.len() != 2 {
        Some(Error::Other(STRIDED_RANK))
    } else if n_heads * head_dim > usize::MAX {
        Some(Error::Other(STRIDED_HIDDEN))
    } else if !strided_matches(ctx, qkv, n_heads, head_dim) {
        Some(Error::Other(STRIDED_SHAPE))
    } else if !build.has_fa2() {
        Some(Error::Other(STRIDED_BACKEND))
    } else if n_heads * qkv.dims@[0] > usize::MAX || n_heads * qkv.dims@[0] * 4 > usize::MAX {
        Some(Error::Other(STRIDED_LSE))
    } else if qkv.dims@[0] > i32::MAX {
        Some(Error::Other(STRIDED_TOKENS))
    } else if n_heads > i32::MAX {
        Some(Error::Other(STRIDED_HEADS))
    } else {
        None
    }
}

/// Full attention that reads queries, keys and values as row-strided views of
/// one projection.
pub fn noncausal_strided_qkv(
    ctx: &CudaContext,
    build: &AttentionBuild,
    qkv: &Tensor,
    n_heads: usize,
    head_dim: usize,
) -> (result: Result<StridedLaunch, Error>)
    requires
        qkv.dtype == DType::BF16 && qkv.dims@.len() == 2 && n_heads * head_dim <= usize::MAX ==> 3
            * (n_heads * head_dim) <= usize::MAX,
        qkv.dims@.len() == 2 && strided_matches(*ctx, *qkv, n_heads, head_dim) && build.has_fa2()
            ==> qkv.dims@[0] * (n_heads * head_dim) * 2 <= usize::MAX,
    ensures
        result == unless(
            strided_problem(*ctx, *build, *qkv, n_heads, head_dim),
            StridedLaunch {
                qkv: qkv.buffer.address,
                tokens: qkv.dims@[0] as i32,
                heads: n_heads as i32,
                head_dim: head_dim as i32,
                scale_dim: head_dim,
                output: matrix_output(DType::BF16, qkv.dims@[0], (n_heads * head_dim) as usize),
                lse_bytes: (n_heads * qkv.dims@[0] * 4) as usize,
            },
        ),
{
    if qkv.dtype != DType::BF16 || qkv.dims.len() != 2 {
        return Err(Error::Other(STRIDED_RANK));
    }
    let hidden: usize = match n_heads.checked_mul(head_dim) {
        Some(hidden) => hidden,
        None => {
            return Err(Error::Other(STRIDED_HIDDEN));
        },
    };
    let tokens: usize = qkv.dims[0];
    if n_heads == 0 || head_dim == 0 || head_dim > 64 || head_dim % 2 != 0 || tokens == 0
        || qkv.dims[1] != 3 * hidden || qkv.device != Device::Cuda(ctx.device_id) {
        return Err(Error::Other(STRIDED_SHAPE));
    }
    if !build.fa2() {
        return Err(Error::Other(STRIDED_BACKEND));
    }
    let bytes: usize = tokens * hidden * 2;
    let elements: usize = match n_heads.checked_mul(tokens) {
        Some(elements) => elements,
        None => {
            return Err(Error::Other(STRIDED_LSE));
        },
    };
    let lse_bytes: usize = match elements.checked_mul(4) {
        Some(bytes) => bytes,
        None => {
            return Err(Error::Other(STRIDED_LSE));
        },
    };
    if tokens > 0x7fff_ffff {
        return Err(Error::Other(STRIDED_TOKENS));
    }
    if n_heads > 0x7fff_ffff {
        return Err(Error::Other(STRIDED_HEADS));
    }
    Ok(
        StridedLaunch {
            qkv: qkv.buffer.address,
            tokens: tokens as i32,
            heads: n_heads as i32,
            head_dim: head_dim as i32,
            scale_dim: head_dim,
            output: MatrixOutput { dtype: DType::BF16, rows: tokens, cols: hidden, bytes },
            lse_bytes,
        },
    )
}

} // verus!
