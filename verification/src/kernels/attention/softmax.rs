//! Softmax, masks and decode attention over caller-owned storage.

use super::super::contracts::{
    address_problem, buffer_problem, byte_size, checked_bytes, finite_bits, first_of, gpu_ptr,
    pointer_problem, require_address, require_buffer, require_finite, tensor_bytes, tensor_fits,
    tensor_size, unless, NON_FINITE,
};
use super::super::elementwise::dtype_problem;
use crate::context::CudaContext;
use crate::error::Error;
use crate::types::{CudaBuffer, CudaDeviceAddress, DType, Tensor};
use vstd::prelude::*;

verus! {

/// `apxinf_attention_softmax_decode_f32`.
#[derive(Clone, Copy, Debug, PartialEq, Eq, Structural)]
pub struct DecodeSoftmax {
    pub scores: usize,
    pub output: usize,
    pub cols: u32,
    pub heads: u32,
    pub position: usize,
}

pub const SOFTMAX: &'static str = "attention softmax";

pub open spec fn softmax_into_problem(
    ctx: CudaContext,
    scores: CudaBuffer,
    output: CudaBuffer,
    cols: usize,
    heads: usize,
    position: CudaDeviceAddress,
) -> Option<Error> {
    match byte_size(DType::F32, seq![heads, cols], SOFTMAX) {
        Err(error) => Some(error),
        Ok(bytes) => first_of(
            buffer_problem(ctx.device_id, SOFTMAX, "scores", scores, bytes as int),
            first_of(
                buffer_problem(ctx.device_id, SOFTMAX, "output", output, bytes as int),
                address_problem(ctx.device_id, SOFTMAX, "position", position, 4),
            ),
        ),
    }
}

/// F32 attention softmax into caller-owned storage using a device position.
pub fn softmax_f32_into(
    ctx: &CudaContext,
    scores: &CudaBuffer,
    output: &CudaBuffer,
    cols: usize,
    heads: usize,
    position: CudaDeviceAddress,
) -> (result: Result<DecodeSoftmax, Error>)
    ensures
        result == unless(
            softmax_into_problem(*ctx, *scores, *output, cols, heads, position),
            DecodeSoftmax {
                scores: scores.address,
                output: output.address,
                cols: cols as u32,
                heads: heads as u32,
                position: position.address,
            },
        ),
{
    let dims: Vec<usize> = vec![heads, cols];
    assert(dims@ =~= seq![heads, cols]);
    let bytes: usize = checked_bytes(DType::F32, dims.as_slice(), SOFTMAX)?;
    require_buffer(ctx, SOFTMAX, "scores", scores, bytes)?;
    require_buffer(ctx, SOFTMAX, "output", output, bytes)?;
    require_address(ctx, SOFTMAX, "position", position, 4)?;
    Ok(
        DecodeSoftmax {
            scores: scores.address,
            output: output.address,
            cols: cols as u32,
            heads: heads as u32,
            position: position.address,
        },
    )
}

/// `apxinf_flash_attn_decode_bf16`; the scale is given by its bits.
#[derive(Clone, Copy, Debug, PartialEq, Eq, Structural)]
pub struct FlashDecode {
    pub query: usize,
    pub key_cache: usize,
    pub value_cache: usize,
    pub output: usize,
    pub heads: u32,
    pub kv_heads: u32,
    pub head_dim: u32,
    pub bucket_kv_len: u32,
    pub max_seq_len: u32,
    pub scale: u32,
    pub position: usize,
}

/// The extents of decode attention over a cache.
#[derive(Clone, Copy, Debug, PartialEq, Eq, Structural)]
pub struct DecodeExtents {
    pub heads: usize,
    pub kv_heads: usize,
    pub head_dim: usize,
    pub bucket_kv_len: usize,
    pub max_seq_len: usize,
}

pub const FLASH: &'static str = "flash attention";

pub const FLASH_EXTENTS: &'static str =
    "flash attention received invalid head or sequence dimensions";

pub open spec fn flash_problem(
    ctx: CudaContext,
    query: CudaBuffer,
    key_cache: CudaBuffer,
    value_cache: CudaBuffer,
    output: CudaBuffer,
    extents: DecodeExtents,
    scale: u32,
    position: CudaDeviceAddress,
) -> Option<Error> {
    if !finite_bits(scale) {
        Some(Error::Operation { operation: FLASH, problem: NON_FINITE })
    } else if extents.heads == 0 || extents.kv_heads == 0 || extents.heads % extents.kv_heads != 0
        || extents.bucket_kv_len > extents.max_seq_len {
        Some(Error::Other(FLASH_EXTENTS))
    } else {
        match byte_size(DType::BF16, seq![extents.heads, extents.head_dim], FLASH) {
            Err(error) => Some(error),
            Ok(query_size) => match byte_size(
                DType::BF16,
                seq![extents.kv_heads, extents.max_seq_len, extents.head_dim],
                FLASH,
            ) {
                Err(error) => Some(error),
                Ok(cache_size) => first_of(
                    buffer_problem(ctx.device_id, FLASH, "query", query, query_size as int),
                    first_of(
                        buffer_problem(
                            ctx.device_id,
                            FLASH,
                            "key cache",
                            key_cache,
                            cache_size as int,
                        ),
                        first_of(
                            buffer_problem(
                                ctx.device_id,
                                FLASH,
                                "value cache",
                                value_cache,
                                cache_size as int,
                            ),
                            first_of(
                                buffer_problem(
                                    ctx.device_id,
                                    FLASH,
                                    "output",
                                    output,
                                    query_size as int,
                                ),
                                address_problem(ctx.device_id, FLASH, "position", position, 4),
                            ),
                        ),
                    ),
                ),
            },
        }
    }
}

/// Decode-time BF16 flash attention into caller-owned storage.
pub fn flash_bf16_into(
    ctx: &CudaContext,
    query: &CudaBuffer,
    key_cache: &CudaBuffer,
    value_cache: &CudaBuffer,
    output: &CudaBuffer,
    extents: &DecodeExtents,
    scale: u32,
    position: CudaDeviceAddress,
) -> (result: Result<FlashDecode, Error>)
    ensures
        result == unless(
            flash_problem(
                *ctx,
                *query,
                *key_cache,
                *value_cache,
                *output,
                *extents,
                scale,
                position,
            ),
            FlashDecode {
                query: query.address,
                key_cache: key_cache.address,
                value_cache: value_cache.address,
                output: output.address,
                heads: extents.heads as u32,
                kv_heads: extents.kv_heads as u32,
                head_dim: extents.head_dim as u32,
                bucket_kv_len: extents.bucket_kv_len as u32,
                max_seq_len: extents.max_seq_len as u32,
                scale,
                position: position.address,
            },
        ),
{
    let scalars: Vec<u32> = vec![scale];
    assert(scalars@ =~= seq![scale]);
    assert(finite_bits(scalars@[0]) == finite_bits(scale));
    require_finite(FLASH, scalars.as_slice())?;
    if extents.heads == 0 || extents.kv_heads == 0 || extents.heads % extents.kv_heads != 0
        || extents.bucket_kv_len > extents.max_seq_len {
        return Err(Error::Other(FLASH_EXTENTS));
    }
    let row: Vec<usize> = vec![extents.heads, extents.head_dim];
    let cache: Vec<usize> = vec![extents.kv_heads, extents.max_seq_len, extents.head_dim];
    assert(row@ =~= seq![extents.heads, extents.head_dim]);
    assert(cache@ =~= seq![extents.kv_heads, extents.max_seq_len, extents.head_dim]);
    let query_size: usize = checked_bytes(DType::BF16, row.as_slice(), FLASH)?;
    let cache_size: usize = checked_bytes(DType::BF16, cache.as_slice(), FLASH)?;
    require_buffer(ctx, FLASH, "query", query, query_size)?;
    require_buffer(ctx, FLASH, "key cache", key_cache, cache_size)?;
    require_buffer(ctx, FLASH, "value cache", value_cache, cache_size)?;
    require_buffer(ctx, FLASH, "output", output, query_size)?;
    require_address(ctx, FLASH, "position", position, 4)?;
    Ok(
        FlashDecode {
            query: query.address,
            key_cache: key_cache.address,
            value_cache: value_cache.address,
            output: output.address,
            heads: extents.heads as u32,
            kv_heads: extents.kv_heads as u32,
            head_dim: extents.head_dim as u32,
            bucket_kv_len: extents.bucket_kv_len as u32,
            max_seq_len: extents.max_seq_len as u32,
            scale,
            position: position.address,
        },
    )
}

/// What is applied to every row of scores.
#[derive(Clone, Copy, Debug, PartialEq, Eq, Structural)]
pub enum RowOp {
    /// `apxinf_softmax_*`.
    Softmax,
    /// `apxinf_causal_mask_*`.
    CausalMask { kv_offset: u32 },
    /// `apxinf_attention_softmax_*`: the mask and the softmax in one.
    CausalSoftmax { kv_offset: u32, heads: u32 },
}

/// A row operation on a tensor whose last two extents are rows and columns. The
/// zeroed output has the input's shape and element type.
#[derive(Clone, Copy, Debug, PartialEq, Eq, Structural)]
pub struct RowLaunch {
    pub op: RowOp,
    pub dtype: DType,
    pub input: usize,
    pub cols: u32,
    pub rows: u32,
    pub output_bytes: usize,
}

pub open spec fn row_launch(op: RowOp, input: Tensor) -> RowLaunch {
    RowLaunch {
        op,
        dtype: input.dtype,
        input: input.buffer.address,
        cols: input.dims@.last() as u32,
        rows: input.dims@[input.dims@.len() - 2] as u32,
        output_bytes: tensor_size(input) as usize,
    }
}

pub open spec fn row_problem(operation: &'static str, input: Tensor) -> Option<Error> {
    first_of(dtype_problem(operation, input.dtype), pointer_problem(input))
}

fn row_operation(operation: &'static str, op: RowOp, input: &Tensor) -> (result: Result<
    RowLaunch,
    Error,
>)
    requires
        input.dims@.len() >= 2,
        tensor_fits(*input),
    ensures
        result == unless(row_problem(operation, *input), row_launch(op, *input)),
{
    let rows: usize = input.dims[input.dims.len() - 2];
    let cols: usize = input.dims[input.dims.len() - 1];
    if !(input.dtype == DType::F32 || input.dtype == DType::BF16) {
        return Err(Error::UnsupportedDType { operation, dtype: input.dtype });
    }
    let source: usize = gpu_ptr(input)?;
    Ok(
        RowLaunch {
            op,
            dtype: input.dtype,
            input: source,
            cols: cols as u32,
            rows: rows as u32,
            output_bytes: tensor_bytes(input),
        },
    )
}

/// Softmax over rows.
pub fn softmax(input: &Tensor) -> (result: Result<RowLaunch, Error>)
    requires
        input.dims@.len() >= 2,
        tensor_fits(*input),
    ensures
        result == unless(row_problem("softmax", *input), row_launch(RowOp::Softmax, *input)),
{
    row_operation("softmax", RowOp::Softmax, input)
}

/// Causal attention mask.
pub fn causal_mask(input: &Tensor, kv_offset: u32) -> (result: Result<RowLaunch, Error>)
    requires
        input.dims@.len() >= 2,
        tensor_fits(*input),
    ensures
        result == unless(
            row_problem("causal_mask", *input),
            row_launch(RowOp::CausalMask { kv_offset }, *input),
        ),
{
    row_operation("causal_mask", RowOp::CausalMask { kv_offset }, input)
}

/// Fused causal mask and softmax.
pub fn softmax_causal(input: &Tensor, kv_offset: u32, n_heads: u32) -> (result: Result<
    RowLaunch,
    Error,
>)
    requires
        input.dims@.len() >= 2,
        tensor_fits(*input),
    ensures
        result == unless(
            row_problem("attention_softmax", *input),
            row_launch(RowOp::CausalSoftmax { kv_offset, heads: n_heads }, *input),
        ),
{
    row_operation("attention_softmax", RowOp::CausalSoftmax { kv_offset, heads: n_heads }, input)
}

} // verus!
