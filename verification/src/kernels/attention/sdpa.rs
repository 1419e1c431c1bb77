//! Grouped-query attention over an existing key/value cache.

use super::super::contracts::{
    collected, lemma_collected_error, lemma_collected_places, lemma_collected_values, unless,
};
use super::features::{AttentionBuild, AttentionSwitches};
use crate::context::CudaContext;
use crate::cublas::{
    floating_type, raw_operation, row_major, stored, CublasCall, CublasTranspose, Scalar,
};
use crate::error::Error;
use crate::ffi::cublas::cublasComputeType_t;
use crate::laws::products::{
    has_extents, is_real, launched_address, launched_entry, lemma_call_is_product, lemma_same_rows,
    matrix, product_entry, transposed,
};
use crate::types::{dtype_size, CudaBuffer, DType, Device, Tensor};
use vstd::prelude::*;

verus! {

/// The extents of attention over a cache `[n_kv_heads, max_seq_len, head_dim]`,
/// of which `kv_len` rows are filled.
#[derive(Clone, Copy, Debug, PartialEq, Eq, Structural)]
pub struct SdpaShape {
    pub dtype: DType,
    pub seq_len: usize,
    pub n_heads: usize,
    pub n_kv_heads: usize,
    pub head_dim: usize,
    pub kv_len: usize,
    pub max_seq_len: usize,
    pub kv_offset: u32,
}

impl SdpaShape {
    /// Query heads per key head.
    pub open spec fn group(self) -> int {
        self.n_heads as int / self.n_kv_heads as int
    }

    /// Bytes of an element.
    pub open spec fn width(self) -> int {
        dtype_size(self.dtype) as int
    }

    pub open spec fn query_size(self) -> int {
        self.seq_len * self.n_heads * self.head_dim * self.width()
    }

    pub open spec fn cache_size(self) -> int {
        self.n_kv_heads * self.max_seq_len * self.head_dim * self.width()
    }

    pub open spec fn scores_size(self) -> int {
        self.seq_len * self.n_heads * self.kv_len * self.width()
    }

    /// The heads group evenly, the filled rows exist, and every size is a
    /// machine word.
    pub open spec fn valid(self) -> bool {
        &&& self.n_kv_heads > 0
        &&& self.n_heads > 0
        &&& self.n_heads as int % self.n_kv_heads as int == 0
        &&& 0 < self.kv_len <= self.max_seq_len
        &&& self.seq_len * self.n_heads <= usize::MAX
        &&& self.seq_len * self.n_heads * self.head_dim <= usize::MAX
        &&& self.query_size() <= usize::MAX
        &&& self.n_kv_heads * self.max_seq_len <= usize::MAX
        &&& self.n_kv_heads * self.max_seq_len * self.head_dim <= usize::MAX
        &&& self.cache_size() <= usize::MAX
        &&& self.seq_len * self.n_heads * self.kv_len <= usize::MAX
        &&& self.scores_size() <= usize::MAX
        &&& self.n_heads * self.head_dim <= usize::MAX
    }

    /// One call per key head and query row, the rows of a head together.
    pub open spec fn calls(self) -> int {
        self.n_kv_heads * self.seq_len
    }

    pub open spec fn kv_head(self, call: int) -> int {
        call / self.seq_len as int
    }

    /// The first of the query heads, over all rows, that a call covers.
    pub open spec fn row(self, call: int) -> int {
        (call % self.seq_len as int) * self.n_heads + self.kv_head(call) * self.group()
    }

    /// Where a call finds its query heads, or writes their output.
    pub open spec fn heads_part(self, buffer: CudaBuffer, call: int) -> Result<CudaBuffer, Error> {
        buffer.slice_of(
            self.row(call) * self.head_dim * self.width(),
            self.group() * self.head_dim * self.width(),
        )
    }

    /// Where a call finds the filled rows of its key head.
    pub open spec fn cache_part(self, buffer: CudaBuffer, call: int) -> Result<CudaBuffer, Error> {
        buffer.slice_of(
            self.kv_head(call) * self.max_seq_len * self.head_dim * self.width(),
            self.kv_len * self.head_dim * self.width(),
        )
    }

    /// Where the scores of a call lie.
    pub open spec fn scores_part(self, buffer: CudaBuffer, call: int) -> Result<CudaBuffer, Error> {
        buffer.slice_of(
            self.row(call) * self.kv_len * self.width(),
            self.group() * self.kv_len * self.width(),
        )
    }

    /// The algorithm that products of this type are run with.
    pub open spec fn algo(self) -> i32 {
        if self.dtype == DType::F32 {
            99i32
        } else {
            -1i32
        }
    }

    /// `scores = queries @ keys^T` of one call.
    pub open spec fn score_call(
        self,
        query: CudaBuffer,
        key_cache: CudaBuffer,
        scores: CudaBuffer,
        call: int,
    ) -> Result<CublasCall, Error> {
        match self.heads_part(query, call) {
            Err(error) => Err(error),
            Ok(a) => match self.cache_part(key_cache, call) {
                Err(error) => Err(error),
                Ok(b) => match self.scores_part(scores, call) {
                    Err(error) => Err(error),
                    Ok(c) => match floating_type(self.dtype) {
                        Err(error) => Err(error),
                        Ok(element) => Ok(
                            CublasCall::GemmEx(
                                row_major(
                                    raw_operation(CublasTranspose::Normal),
                                    raw_operation(CublasTranspose::Transpose),
                                    self.group() as i32,
                                    self.kv_len as i32,
                                    self.head_dim as i32,
                                    Scalar::Real(0x3f80_0000),
                                    stored(a, element, self.head_dim as i32),
                                    stored(b, element, self.head_dim as i32),
                                    Scalar::Real(0),
                                    stored(c, element, self.kv_len as i32),
                                    cublasComputeType_t::CUBLAS_COMPUTE_32F,
                                    self.algo(),
                                ),
                            ),
                        ),
                    },
                },
            },
        }
    }

    /// `output = probabilities @ values` of one call.
    pub open spec fn value_call(
        self,
        attention: CudaBuffer,
        value_cache: CudaBuffer,
        output: CudaBuffer,
        call: int,
    ) -> Result<CublasCall, Error> {
        match self.scores_part(attention, call) {
            Err(error) => Err(error),
            Ok(a) => match self.cache_part(value_cache, call) {
                Err(error) => Err(error),
                Ok(b) => match self.heads_part(output, call) {
                    Err(error) => Err(error),
                    Ok(c) => match floating_type(self.dtype) {
                        Err(error) => Err(error),
                        Ok(element) => Ok(
                            CublasCall::GemmEx(
                                row_major(
                                    raw_operation(CublasTranspose::Normal),
                                    raw_operation(CublasTranspose::Normal),
                                    self.group() as i32,
                                    self.head_dim as i32,
                                    self.kv_len as i32,
                                    Scalar::Real(0x3f80_0000),
                                    stored(a, element, self.kv_len as i32),
                                    stored(b, element, self.head_dim as i32),
                                    Scalar::Real(0),
                                    stored(c, element, self.head_dim as i32),
                                    cublasComputeType_t::CUBLAS_COMPUTE_32F,
                                    self.algo(),
                                ),
                            ),
                        ),
                    },
                },
            },
        }
    }
}

/// `apxinf_kv_cache_gather_bf16` for keys and values: the filled rows of a
/// cache as `[seq_len, n_kv_heads, head_dim]`.
#[derive(Clone, Copy, Debug, PartialEq, Eq, Structural)]
pub struct CacheGather {
    pub key: usize,
    pub value: usize,
    pub bytes: usize,
    pub seq_len: u32,
    pub kv_heads: u32,
    pub head_dim: u32,
    pub max_seq_len: u32,
    pub kv_offset: u32,
}

/// The cache of one layer.
#[derive(Clone, Copy, Debug, PartialEq, Eq, Structural)]
pub struct LayerCache {
    pub key: CudaBuffer,
    pub value: CudaBuffer,
}

#[derive(Clone, Copy, Debug, PartialEq, Eq, Structural)]
pub enum SdpaRoute {
    /// Gather the cache and run causal attention over it; the output is read as
    /// `[seq_len, n_heads * head_dim]`.
    Prefill { gather: CacheGather, shape: SdpaShape },
    /// Score calls, scaling by one over the root of the head dimension, the
    /// causal softmax and value calls, with memory of the given sizes.
    Materialized { shape: SdpaShape, scores_bytes: usize, output_bytes: usize },
}

pub const SDPA_HEADS: &'static str = "attention requires non-zero divisible head counts";

pub const SDPA_QUERY: &'static str = "attention query must be CUDA [seq, heads, head_dim]";

pub const SDPA_LENGTH: &'static str = "attention kv_len is outside 1..=max_seq_len";

pub const SDPA_CACHE: &'static str = "expected CudaKVCache";

pub open spec fn sdpa_problem(
    ctx: CudaContext,
    query: Tensor,
    cache: Option<LayerCache>,
    shape: SdpaShape,
) -> Option<Error> {
    if shape.n_kv_heads == 0 || shape.n_heads == 0 || shape.n_heads % shape.n_kv_heads != 0 {
        Some(Error::Other(SDPA_HEADS))
    } else if query.device != Device::Cuda(ctx.device_id) || query.dims@.len() != 3
        || query.dims@[1] != shape.n_heads || query.dims@[2] != shape.head_dim {
        Some(Error::Other(SDPA_QUERY))
    } else if shape.kv_len == 0 || shape.kv_len > shape.max_seq_len {
        Some(Error::Other(SDPA_LENGTH))
    } else if cache is None {
        Some(Error::Other(SDPA_CACHE))
    } else {
        None
    }
}

/// Whether attention is a fresh prefill over the whole prompt, which
/// FlashAttention-2 runs.
pub open spec fn is_prefill(build: AttentionBuild, switches: AttentionSwitches, shape: SdpaShape) -> bool {
    &&& build.has_fa2()
    &&& shape.dtype == DType::BF16
    &&& shape.head_dim == 128
    &&& shape.kv_offset == 0
    &&& shape.kv_len == shape.seq_len
    &&& !switches.prefill_legacy
}

pub open spec fn sdpa_route(
    build: AttentionBuild,
    switches: AttentionSwitches,
    cache: LayerCache,
    shape: SdpaShape,
) -> SdpaRoute {
    if is_prefill(build, switches, shape) {
        SdpaRoute::Prefill {
            gather: CacheGather {
                key: cache.key.address,
                value: cache.value.address,
                bytes: (shape.seq_len * shape.n_kv_heads * shape.head_dim * 2) as usize,
                seq_len: shape.seq_len as u32,
                kv_heads: shape.n_kv_heads as u32,
                head_dim: shape.head_dim as u32,
                max_seq_len: shape.max_seq_len as u32,
                kv_offset: shape.kv_offset,
            },
            shape,
        }
    } else {
        SdpaRoute::Materialized {
            shape,
            scores_bytes: shape.scores_size() as usize,
            output_bytes: shape.query_size() as usize,
        }
    }
}

/// GQA scaled-dot-product attention over an existing CUDA KV cache.
///
/// The sequence length and the element type of `shape` are those of the query.
pub fn sdpa(
    ctx: &CudaContext,
    build: &AttentionBuild,
    switches: &AttentionSwitches,
    query: &Tensor,
    cache: Option<LayerCache>,
    shape: &SdpaShape,
) -> (result: Result<SdpaRoute, Error>)
    requires
        query.dims@.len() == 3 ==> shape.seq_len == query.dims@[0],
        shape.dtype == query.dtype,
        sdpa_problem(*ctx, *query, cache, *shape) is None ==> shape.valid(),
    ensures
        result == unless(
            sdpa_problem(*ctx, *query, cache, *shape),
            sdpa_route(*build, *switches, cache.unwrap(), *shape),
        ),
{
    if shape.n_kv_heads == 0 || shape.n_heads == 0 || shape.n_heads % shape.n_kv_heads != 0 {
        return Err(Error::Other(SDPA_HEADS));
    }
    if query.device != Device::Cuda(ctx.device_id) || query.dims.len() != 3 || query.dims[1]
        != shape.n_heads || query.dims[2] != shape.head_dim {
        return Err(Error::Other(SDPA_QUERY));
    }
    if shape.kv_len == 0 || shape.kv_len > shape.max_seq_len {
        return Err(Error::Other(SDPA_LENGTH));
    }
    let cache = match cache {
        Some(cache) => cache,
        None => {
            return Err(Error::Other(SDPA_CACHE));
        },
    };
    if build.fa2() && shape.dtype == DType::BF16 && shape.head_dim == 128 && shape.kv_offset == 0
        && shape.kv_len == shape.seq_len && !switches.prefill_legacy {
        proof {
            let s = shape.seq_len as int;
            let kv = shape.n_kv_heads as int;
            let d = shape.head_dim as int;
            assert(s * kv <= kv * shape.max_seq_len) by (nonlinear_arith)
                requires
                    s <= shape.max_seq_len,
                    kv > 0,
            ;
            assert(s * kv * d <= kv * shape.max_seq_len * d) by (nonlinear_arith)
                requires
                    s * kv <= kv * shape.max_seq_len,
                    d >= 0,
            ;
            let w = shape.width();
            let whole = kv * shape.max_seq_len * d;
            assert(w == 2);
            assert(whole * w == whole * 2) by (nonlinear_arith)
                requires
                    w == 2,
            ;
        }
        return Ok(
            SdpaRoute::Prefill {
                gather: CacheGather {
                    key: cache.key.address,
                    value: cache.value.address,
                    bytes: shape.seq_len * shape.n_kv_heads * shape.head_dim * 2,
                    seq_len: shape.seq_len as u32,
                    kv_heads: shape.n_kv_heads as u32,
                    head_dim: shape.head_dim as u32,
                    max_seq_len: shape.max_seq_len as u32,
                    kv_offset: shape.kv_offset,
                },
                shape: *shape,
            },
        );
    }
    let width: usize = shape.dtype.size_in_bytes();
    Ok(
        SdpaRoute::Materialized {
            shape: *shape,
            scores_bytes: shape.seq_len * shape.n_heads * shape.kv_len * width,
            output_bytes: shape.seq_len * shape.n_heads * shape.head_dim * width,
        },
    )
}

proof fn lemma_call(shape: SdpaShape, call: int)
    requires
        shape.valid(),
        0 <= call < shape.calls(),
    ensures
        shape.seq_len > 0,
        0 <= shape.kv_head(call) < shape.n_kv_heads,
        0 <= call % (shape.seq_len as int) < shape.seq_len,
        shape.group() >= 1,
        0 <= shape.kv_head(call) * shape.group(),
        shape.kv_head(call) * shape.group() + shape.group() <= shape.n_heads,
        0 <= (call % shape.seq_len as int) * shape.n_heads,
        0 <= shape.row(call),
        shape.row(call) + shape.group() <= shape.seq_len * shape.n_heads,
{
    let s = shape.seq_len as int;
    let kv = shape.n_kv_heads as int;
    let group = shape.group();
    assert(s > 0) by (nonlinear_arith)
        requires
            0 <= call < kv * s,
            s >= 0,
    ;
    assert(0 <= call / s < kv) by (nonlinear_arith)
        requires
            0 <= call < kv * s,
            s > 0,
    ;
    vstd::arithmetic::div_mod::lemma_fundamental_div_mod(shape.n_heads as int, kv);
    assert(group >= 1) by (nonlinear_arith)
        requires
            shape.n_heads == kv * group,
            shape.n_heads > 0,
            kv > 0,
    ;
    let g = shape.kv_head(call);
    assert(g * group + group <= kv * group) by (nonlinear_arith)
        requires
            g + 1 <= kv,
            group >= 1,
    ;
    assert(0 <= g * group) by (nonlinear_arith)
        requires
            g >= 0,
            group >= 1,
    ;
    let r = call % s;
    let heads = shape.n_heads as int;
    assert(r * heads + heads <= s * heads) by (nonlinear_arith)
        requires
            r + 1 <= s,
            heads > 0,
    ;
    assert(0 <= r * heads) by (nonlinear_arith)
        requires
            r >= 0,
            heads > 0,
    ;
}

/// A span of whole rows inside some rows.
proof fn lemma_span(row: int, count: int, rows: int, columns: int, width: int)
    requires
        0 <= row,
        0 <= count,
        row + count <= rows,
        columns >= 0,
        width >= 1,
    ensures
        0 <= row * columns <= rows * columns,
        0 <= count * columns <= rows * columns,
        0 <= row * columns * width,
        0 <= count * columns * width,
        row * columns * width + count * columns * width <= rows * columns * width,
{
    assert(0 <= row * columns) by (nonlinear_arith)
        requires
            0 <= row,
            columns >= 0,
    ;
    assert(0 <= count * columns) by (nonlinear_arith)
        requires
            0 <= count,
            columns >= 0,
    ;
    assert(row * columns + count * columns <= rows * columns) by (nonlinear_arith)
        requires
            row + count <= rows,
            columns >= 0,
    ;
    let a = row * columns;
    let b = count * columns;
    let c = rows * columns;
    assert(a * width + b * width <= c * width) by (nonlinear_arith)
        requires
            a + b <= c,
            width >= 1,
    ;
    assert(0 <= a * width && 0 <= b * width) by (nonlinear_arith)
        requires
            a >= 0,
            b >= 0,
            width >= 1,
    ;
}

proof fn lemma_offsets(shape: SdpaShape, call: int)
    requires
        shape.valid(),
        0 <= call < shape.calls(),
    ensures
        ({
            let row = shape.row(call);
            let group = shape.group();
            let d = shape.head_dim as int;
            let w = shape.width();
            let kv_len = shape.kv_len as int;
            let g = shape.kv_head(call);
            &&& 0 <= row * d <= usize::MAX
            &&& 0 <= group * d <= usize::MAX
            &&& 0 <= row * d * w
            &&& 0 <= group * d * w
            &&& row * d * w + group * d * w <= shape.query_size()
            &&& 0 <= row * kv_len <= usize::MAX
            &&& 0 <= group * kv_len <= usize::MAX
            &&& 0 <= row * kv_len * w
            &&& 0 <= group * kv_len * w
            &&& row * kv_len * w + group * kv_len * w <= shape.scores_size()
            &&& 0 <= g * shape.max_seq_len <= usize::MAX
            &&& 0 <= g * shape.max_seq_len * d <= usize::MAX
            &&& 0 <= g * shape.max_seq_len * d * w
            &&& 0 <= kv_len * d <= usize::MAX
            &&& 0 <= kv_len * d * w
            &&& g * shape.max_seq_len * d * w + kv_len * d * w <= shape.cache_size()
        }),
{
    lemma_call(shape, call);
    let row = shape.row(call);
    let group = shape.group();
    let d = shape.head_dim as int;
    let w = shape.width();
    let rows = shape.seq_len * shape.n_heads;
    lemma_span(row, group, rows, d, w);
    lemma_span(row, group, rows, shape.kv_len as int, w);
    let g = shape.kv_head(call);
    let m = shape.max_seq_len as int;
    let kv = shape.n_kv_heads as int;
    assert(g * m + m <= kv * m) by (nonlinear_arith)
        requires
            g + 1 <= kv,
            m >= 0,
    ;
    assert(0 <= g * m) by (nonlinear_arith)
        requires
            g >= 0,
            m >= 0,
    ;
    lemma_span(g * m, shape.kv_len as int, kv * m, d, w);
}

/// With a cache and buffers of full size every call of a floating-point type is
/// made.
pub proof fn lemma_calls_are_made(
    shape: SdpaShape,
    query: CudaBuffer,
    cache: CudaBuffer,
    scores: CudaBuffer,
    call: int,
)
    requires
        shape.valid(),
        0 <= call < shape.calls(),
        query.len >= shape.query_size(),
        cache.len >= shape.cache_size(),
        scores.len >= shape.scores_size(),
        shape.dtype == DType::F32 || shape.dtype == DType::F16 || shape.dtype == DType::BF16,
    ensures
        shape.score_call(query, cache, scores, call) is Ok,
        shape.value_call(scores, cache, query, call) is Ok,
{
    lemma_offsets(shape, call);
}

fn gqa_scores(
    ctx: &CudaContext,
    shape: &SdpaShape,
    query: &CudaBuffer,
    key_cache: &CudaBuffer,
    scores: &CudaBuffer,
    call: usize,
) -> (result: Result<CublasCall, Error>)
    requires
        shape.valid(),
        query.in_memory(),
        key_cache.in_memory(),
        scores.in_memory(),
        call < shape.calls(),
    ensures
        result == shape.score_call(*query, *key_cache, *scores, call as int),
{
    proof {
        lemma_call(*shape, call as int);
        lemma_offsets(*shape, call as int);
    }
    let group: usize = shape.n_heads / shape.n_kv_heads;
    let kv_head: usize = call / shape.seq_len;
    let row: usize = (call % shape.seq_len) * shape.n_heads + kv_head * group;
    let width: usize = shape.dtype.size_in_bytes();
    let a = query.slice(row * shape.head_dim * width, group * shape.head_dim * width)?;
    let b = key_cache.slice(
        kv_head * shape.max_seq_len * shape.head_dim * width,
        shape.kv_len * shape.head_dim * width,
    )?;
    let c = scores.slice(row * shape.kv_len * width, group * shape.kv_len * width)?;
    ctx.cublas.gemm_ex(
        shape.dtype,
        CublasTranspose::Normal,
        CublasTranspose::Transpose,
        group,
        shape.kv_len,
        shape.head_dim,
        Scalar::Real(0x3f80_0000),
        &a,
        shape.head_dim as i32,
        &b,
        shape.head_dim as i32,
        Scalar::Real(0),
        &c,
        shape.kv_len as i32,
    )
}

fn gqa_values(
    ctx: &CudaContext,
    shape: &SdpaShape,
    attention: &CudaBuffer,
    value_cache: &CudaBuffer,
    output: &CudaBuffer,
    call: usize,
) -> (result: Result<CublasCall, Error>)
    requires
        shape.valid(),
        attention.in_memory(),
        value_cache.in_memory(),
        output.in_memory(),
        call < shape.calls(),
    ensures
        result == shape.value_call(*attention, *value_cache, *output, call as int),
{
    proof {
        lemma_call(*shape, call as int);
        lemma_offsets(*shape, call as int);
    }
    let group: usize = shape.n_heads / shape.n_kv_heads;
    let kv_head: usize = call / shape.seq_len;
    let row: usize = (call % shape.seq_len) * shape.n_heads + kv_head * group;
    let width: usize = shape.dtype.size_in_bytes();
    let a = attention.slice(row * shape.kv_len * width, group * shape.kv_len * width)?;
    let b = value_cache.slice(
        kv_head * shape.max_seq_len * shape.head_dim * width,
        shape.kv_len * shape.head_dim * width,
    )?;
    let c = output.slice(row * shape.head_dim * width, group * shape.head_dim * width)?;
    ctx.cublas.gemm_ex(
        shape.dtype,
        CublasTranspose::Normal,
        CublasTranspose::Normal,
        group,
        shape.head_dim,
        shape.kv_len,
        Scalar::Real(0x3f80_0000),
        &a,
        shape.kv_len as i32,
        &b,
        shape.head_dim as i32,
        Scalar::Real(0),
        &c,
        shape.head_dim as i32,
    )
}

proof fn lemma_call_count(shape: SdpaShape)
    requires
        shape.valid(),
    ensures
        0 <= shape.calls() <= usize::MAX,
{
    let kv = shape.n_kv_heads as int;
    let s = shape.seq_len as int;
    vstd::arithmetic::div_mod::lemma_fundamental_div_mod(shape.n_heads as int, kv);
    let group = shape.group();
    assert(kv <= shape.n_heads) by (nonlinear_arith)
        requires
            shape.n_heads == kv * group,
            shape.n_heads > 0,
            kv > 0,
    ;
    assert(0 <= kv * s <= s * shape.n_heads) by (nonlinear_arith)
        requires
            0 < kv <= shape.n_heads,
            s >= 0,
    ;
}

/// The products of all query heads with their keys.
pub fn score_calls(
    ctx: &CudaContext,
    shape: &SdpaShape,
    query: &CudaBuffer,
    key_cache: &CudaBuffer,
    scores: &CudaBuffer,
) -> (result: Result<Vec<CublasCall>, Error>)
    requires
        shape.valid(),
        query.in_memory(),
        key_cache.in_memory(),
        scores.in_memory(),
    ensures
        match collected(
            |call: int| shape.score_call(*query, *key_cache, *scores, call),
            shape.calls(),
        ) {
            Err(error) => result == Err::<Vec<CublasCall>, Error>(error),
            Ok(calls) => result matches Ok(made) && made@ == calls,
        },
{
    proof {
        lemma_call_count(*shape);
    }
    let count: usize = shape.n_kv_heads * shape.seq_len;
    let ghost results = |call: int| shape.score_call(*query, *key_cache, *scores, call);
    let mut calls: Vec<CublasCall> = Vec::new();
    let mut i: usize = 0;
    while i < count
        invariant
            i <= count,
            count == shape.calls(),
            shape.valid(),
            query.in_memory(),
            key_cache.in_memory(),
            scores.in_memory(),
            results == (|call: int| shape.score_call(*query, *key_cache, *scores, call)),
            collected(results, i as int) == Ok::<Seq<CublasCall>, Error>(calls@),
        decreases count - i,
    {
        match gqa_scores(ctx, shape, query, key_cache, scores, i) {
            Ok(call) => {
                calls.push(call);
            },
            Err(error) => {
                proof {
                    lemma_collected_error(results, i as int, count as int);
                }
                return Err(error);
            },
        }
        i = i + 1;
    }
    Ok(calls)
}

/// The products of all probabilities with their values.
pub fn value_calls(
    ctx: &CudaContext,
    shape: &SdpaShape,
    attention: &CudaBuffer,
    value_cache: &CudaBuffer,
    output: &CudaBuffer,
) -> (result: Result<Vec<CublasCall>, Error>)
    requires
        shape.valid(),
        attention.in_memory(),
        value_cache.in_memory(),
        output.in_memory(),
    ensures
        match collected(
            |call: int| shape.value_call(*attention, *value_cache, *output, call),
            shape.calls(),
        ) {
            Err(error) => result == Err::<Vec<CublasCall>, Error>(error),
            Ok(calls) => result matches Ok(made) && made@ == calls,
        },
{
    proof {
        lemma_call_count(*shape);
    }
    let count: usize = shape.n_kv_heads * shape.seq_len;
    let ghost results = |call: int| shape.value_call(*attention, *value_cache, *output, call);
    let mut calls: Vec<CublasCall> = Vec::new();
    let mut i: usize = 0;
    while i < count
        invariant
            i <= count,
            count == shape.calls(),
            shape.valid(),
            attention.in_memory(),
            value_cache.in_memory(),
            output.in_memory(),
            results == (|call: int| shape.value_call(*attention, *value_cache, *output, call)),
            collected(results, i as int) == Ok::<Seq<CublasCall>, Error>(calls@),
        decreases count - i,
    {
        match gqa_values(ctx, shape, attention, value_cache, output, i) {
            Ok(call) => {
                calls.push(call);
            },
            Err(error) => {
                proof {
                    lemma_collected_error(results, i as int, count as int);
                }
                return Err(error);
            },
        }
        i = i + 1;
    }
    Ok(calls)
}

/// The place of query head `head` of row `row` among the calls: the call of its key head
/// and row, and the line of that call.
proof fn lemma_place(shape: SdpaShape, row: int, head: int)
    requires
        shape.valid(),
        0 <= row < shape.seq_len,
        0 <= head < shape.n_heads,
    ensures
        ({
            let group = shape.n_heads as int / shape.n_kv_heads as int;
            let g = head / group;
            let call = g * shape.seq_len + row;
            &&& 0 <= g < shape.n_kv_heads
            &&& 0 <= call < shape.calls()
            &&& shape.kv_head(call) == g
            &&& shape.row(call) + (head - g * group) == row * shape.n_heads + head
            &&& 0 <= head - g * group < group
        }),
{
    let group = shape.n_heads as int / shape.n_kv_heads as int;
    let kv = shape.n_kv_heads as int;
    let s = shape.seq_len as int;
    vstd::arithmetic::div_mod::lemma_fundamental_div_mod(shape.n_heads as int, kv);
    assert(group >= 1) by (nonlinear_arith)
        requires
            shape.n_heads == kv * group,
            shape.n_heads > 0,
            kv > 0,
    ;
    let g = head / group;
    vstd::arithmetic::div_mod::lemma_fundamental_div_mod(head, group);
    assert(0 <= g < kv) by (nonlinear_arith)
        requires
            0 <= head < kv * group,
            group >= 1,
            g == head / group,
    ;
    let call = g * s + row;
    assert(0 <= call < kv * s) by (nonlinear_arith)
        requires
            0 <= g < kv,
            0 <= row < s,
            call == g * s + row,
    ;
    vstd::arithmetic::div_mod::lemma_fundamental_div_mod_converse(call, s, g, row);
    assert(group * g == g * group) by (nonlinear_arith);
}

/// Attention over a cache, first half: the score of row `row` of head `head` against key
/// `key` is the scalar product of that query row with that row of the head's key head.
pub proof fn lemma_scores_are_products_with_keys(
    ctx: CudaContext,
    shape: SdpaShape,
    query: CudaBuffer,
    key_cache: CudaBuffer,
    scores: CudaBuffer,
    result: Result<Vec<CublasCall>, Error>,
    memory: spec_fn(int) -> int,
    row: int,
    head: int,
    key: int,
)
    requires
        call_ensures(score_calls, (&ctx, &shape, &query, &key_cache, &scores), result),
        shape.valid(),
        query.in_memory(),
        key_cache.in_memory(),
        scores.in_memory(),
        0 <= row < shape.seq_len,
        0 <= head < shape.n_heads,
        shape.n_heads <= i32::MAX,
        shape.head_dim <= i32::MAX,
        shape.kv_len <= i32::MAX,
    ensures
        result matches Ok(calls) ==> {
            let group = shape.n_heads as int / shape.n_kv_heads as int;
            let g = head / group;
            let made = calls@[g * shape.seq_len + row];
            let gemm = made->GemmEx_0;
            let (d, w) = (shape.head_dim as int, dtype_size(shape.dtype) as int);
            &&& calls@.len() == shape.n_kv_heads * shape.seq_len
            &&& made is GemmEx
            &&& has_extents(gemm, group, shape.kv_len as int, d)
            &&& gemm.alpha == Scalar::Real(0x3f80_0000) && gemm.beta == Scalar::Real(0)
            &&& launched_entry(gemm, memory, 0, 0, head - g * group, key) == product_entry(
                matrix(memory, query.address + row * shape.n_heads * d * w, w, d),
                transposed(matrix(memory, key_cache.address + g * shape.max_seq_len * d * w, w, d)),
                d,
                head,
                key,
            )
            &&& launched_address(gemm, 0, head - g * group, key) == scores.address + ((row
                * shape.n_heads + head) * shape.kv_len + key) * w
        },
        result is Ok ==> is_real(shape.dtype),
        is_real(shape.dtype) && query.len >= shape.query_size() && key_cache.len
            >= shape.cache_size() && scores.len >= shape.scores_size() ==> result is Ok,
{
    let results = |call: int| shape.score_call(query, key_cache, scores, call);
    let group = shape.n_heads as int / shape.n_kv_heads as int;
    let g = head / group;
    let call = g * shape.seq_len + row;
    lemma_place(shape, row, head);
    lemma_call(shape, call);
    lemma_offsets(shape, call);
    if is_real(shape.dtype) && query.len >= shape.query_size() && key_cache.len
        >= shape.cache_size() && scores.len >= shape.scores_size() {
        assert forall|c: int| 0 <= c < shape.calls() implies (#[trigger] results(c)) is Ok by {
            lemma_calls_are_made(shape, query, key_cache, scores, c);
        }
        lemma_collected_values(results, shape.calls());
    }
    if let Ok(calls) = result {
        lemma_collected_places(results, shape.calls(), call);
        assert(results(call) == Ok::<CublasCall, Error>(calls@[call]));
        let gemm = calls@[call]->GemmEx_0;
        let (d, w) = (shape.head_dim as int, dtype_size(shape.dtype) as int);
        let (n, kv_len) = (shape.n_heads as int, shape.kv_len as int);
        let i = head - g * group;
        let first = shape.row(call);
        let whole = matrix(memory, query.address + row * n * d * w, w, d);
        let local = matrix(memory, query.address + first * d * w, w, d);
        let keys = matrix(memory, key_cache.address + g * shape.max_seq_len * d * w, w, d);
        assert(group <= n) by (nonlinear_arith)
            requires
                i >= 0,
                group >= 1,
                first + group <= shape.seq_len * n,
                group == n / shape.n_kv_heads as int,
                shape.n_kv_heads >= 1,
                n >= 1,
        ;
        lemma_call_is_product(gemm, memory, 0, 0, local, transposed(keys), i, key);
        assert forall|l: int| 0 <= l < d implies #[trigger] local(i, l) == whole(head, l) by {
            assert(first * d * w + (i * d + l) * w == row * n * d * w + (head * d + l) * w)
                by (nonlinear_arith)
                requires
                    first + i == row * n + head,
            ;
        }
        lemma_same_rows(local, whole, transposed(keys), d, i, head, key);
        assert(first * kv_len * w + (i * kv_len + key) * w == ((row * n + head) * kv_len + key) * w)
            by (nonlinear_arith)
            requires
                first + i == row * n + head,
        ;
    }
}

/// Attention over a cache, second half: the output of row `row` of head `head` is the sum
/// of the values of the head's key head, each weighed by its probability.
pub proof fn lemma_outputs_weigh_values(
    ctx: CudaContext,
    shape: SdpaShape,
    attention: CudaBuffer,
    value_cache: CudaBuffer,
    output: CudaBuffer,
    result: Result<Vec<CublasCall>, Error>,
    memory: spec_fn(int) -> int,
    row: int,
    head: int,
    column: int,
)
    requires
        call_ensures(value_calls, (&ctx, &shape, &attention, &value_cache, &output), result),
        shape.valid(),
        attention.in_memory(),
        value_cache.in_memory(),
        output.in_memory(),
        0 <= row < shape.seq_len,
        0 <= head < shape.n_heads,
        shape.n_heads <= i32::MAX,
        shape.head_dim <= i32::MAX,
        shape.kv_len <= i32::MAX,
    ensures
        result matches Ok(calls) ==> {
            let group = shape.n_heads as int / shape.n_kv_heads as int;
            let g = head / group;
            let made = calls@[g * shape.seq_len + row];
            let gemm = made->GemmEx_0;
            let (d, w) = (shape.head_dim as int, dtype_size(shape.dtype) as int);
            let kv_len = shape.kv_len as int;
            &&& calls@.len() == shape.n_kv_heads * shape.seq_len
            &&& made is GemmEx
            &&& has_extents(gemm, group, d, kv_len)
            &&& gemm.alpha == Scalar::Real(0x3f80_0000) && gemm.beta == Scalar::Real(0)
            &&& launched_entry(gemm, memory, 0, 0, head - g * group, column) == product_entry(
                matrix(memory, attention.address + row * shape.n_heads * kv_len * w, w, kv_len),
                matrix(memory, value_cache.address + g * shape.max_seq_len * d * w, w, d),
                kv_len,
                head,
                column,
            )
            &&& launched_address(gemm, 0, head - g * group, column) == output.address + ((row
                * shape.n_heads + head) * d + column) * w
        },
        result is Ok ==> is_real(shape.dtype),
        is_real(shape.dtype) && output.len >= shape.query_size() && value_cache.len
            >= shape.cache_size() && attention.len >= shape.scores_size() ==> result is Ok,
{
    let results = |call: int| shape.value_call(attention, value_cache, output, call);
    let group = shape.n_heads as int / shape.n_kv_heads as int;
    let g = head / group;
    let call = g * shape.seq_len + row;
    lemma_place(shape, row, head);
    lemma_call(shape, call);
    lemma_offsets(shape, call);
    if is_real(shape.dtype) && output.len >= shape.query_size() && value_cache.len
        >= shape.cache_size() && attention.len >= shape.scores_size() {
        assert forall|c: int| 0 <= c < shape.calls() implies (#[trigger] results(c)) is Ok by {
            lemma_calls_are_made(shape, output, value_cache, attention, c);
        }
        lemma_collected_values(results, shape.calls());
    }
    if let Ok(calls) = result {
        lemma_collected_places(results, shape.calls(), call);
        assert(results(call) == Ok::<CublasCall, Error>(calls@[call]));
        let gemm = calls@[call]->GemmEx_0;
        let (d, w) = (shape.head_dim as int, dtype_size(shape.dtype) as int);
        let (n, kv_len) = (shape.n_heads as int, shape.kv_len as int);
        let i = head - g * group;
        let first = shape.row(call);
        let whole = matrix(memory, attention.address + row * n * kv_len * w, w, kv_len);
        let local = matrix(memory, attention.address + first * kv_len * w, w, kv_len);
        let values = matrix(memory, value_cache.address + g * shape.max_seq_len * d * w, w, d);
        assert(group <= n) by (nonlinear_arith)
            requires
                group == n / shape.n_kv_heads as int,
                shape.n_kv_heads >= 1,
                n >= 1,
        ;
        lemma_call_is_product(gemm, memory, 0, 0, local, values, i, column);
        assert forall|l: int| 0 <= l < kv_len implies #[trigger] local(i, l) == whole(head, l) by {
            assert(first * kv_len * w + (i * kv_len + l) * w == row * n * kv_len * w + (head
                * kv_len + l) * w) by (nonlinear_arith)
                requires
                    first + i == row * n + head,
            ;
        }
        lemma_same_rows(local, whole, values, kv_len, i, head, column);
        assert(first * d * w + (i * d + column) * w == ((row * n + head) * d + column) * w)
            by (nonlinear_arith)
            requires
                first + i == row * n + head,
        ;
    }
}

/// A request is a fresh prefill, which gathers the cache of the call and attends to all of
/// it, or else it holds a score for each row, head and filled key and an element for
/// each of the query's. It is accepted exactly where query, heads and cache belong
/// together.
pub proof fn lemma_sdpa_reads_its_cache(
    ctx: CudaContext,
    build: AttentionBuild,
    switches: AttentionSwitches,
    query: Tensor,
    cache: Option<LayerCache>,
    shape: SdpaShape,
    result: Result<SdpaRoute, Error>,
)
    requires
        call_ensures(sdpa, (&ctx, &build, &switches, &query, cache, &shape), result),
        shape.seq_len * shape.n_kv_heads * shape.head_dim * 2 <= usize::MAX,
        shape.scores_size() <= usize::MAX,
        shape.query_size() <= usize::MAX,
        shape.seq_len <= u32::MAX,
        shape.n_kv_heads <= u32::MAX,
        shape.max_seq_len <= u32::MAX,
    ensures
        result matches Ok(SdpaRoute::Prefill { gather, shape: whole }) ==> {
            &&& whole == shape
            &&& build.fa2_sm80 || build.fa2_f16_sm100
            &&& !switches.prefill_legacy
            &&& shape.kv_offset == 0 && shape.kv_len == shape.seq_len
            &&& shape.dtype == DType::BF16 && shape.head_dim == 128
            &&& gather.key == cache.unwrap().key.address
            &&& gather.value == cache.unwrap().value.address
            &&& gather.bytes == shape.seq_len * shape.n_kv_heads * shape.head_dim * 2
            &&& gather.seq_len == shape.seq_len && gather.kv_heads == shape.n_kv_heads
            &&& gather.head_dim == shape.head_dim && gather.max_seq_len == shape.max_seq_len
            &&& gather.kv_offset == 0
        },
        result matches Ok(SdpaRoute::Materialized { shape: whole, scores_bytes, output_bytes })
            ==> {
            &&& whole == shape
            &&& scores_bytes == shape.seq_len * shape.n_heads * shape.kv_len * dtype_size(
                shape.dtype,
            )
            &&& output_bytes == shape.seq_len * shape.n_heads * shape.head_dim * dtype_size(
                shape.dtype,
            )
            &&& !(build.fa2_sm80 || build.fa2_f16_sm100) || switches.prefill_legacy
                || shape.kv_offset != 0 || shape.kv_len != shape.seq_len || shape.dtype
                != DType::BF16 || shape.head_dim != 128
        },
        result is Ok <==> {
            &&& shape.n_kv_heads > 0 && shape.n_heads > 0
            &&& shape.n_heads as int % shape.n_kv_heads as int == 0
            &&& query.device == Device::Cuda(ctx.device_id)
            &&& query.dims@.len() == 3 && query.dims@[1] == shape.n_heads && query.dims@[2]
                == shape.head_dim
            &&& 0 < shape.kv_len <= shape.max_seq_len
            &&& cache is Some
        },
{
    let (s, n, kv, d) = (
        shape.seq_len as int,
        shape.n_heads as int,
        shape.n_kv_heads as int,
        shape.head_dim as int,
    );
    let kv_len = shape.kv_len as int;
    let w = shape.width();
    assert(0 <= s * n * kv_len * w && 0 <= s * n * d * w && 0 <= s * kv * d * 2)
        by (nonlinear_arith)
        requires
            s >= 0,
            n >= 0,
            kv >= 0,
            d >= 0,
            kv_len >= 0,
            w >= 0,
    ;
}

} // verus!
