//! KV-cache storage operator contracts.

use super::contracts::{
    address_problem, allocate_matrix, buffer_problem, byte_size, checked_bytes, first_of, gpu_ptr,
    matrix_extents, matrix_output, matrix_shape, output_problem, pointer_problem, require_address,
    require_buffer, unless, MatrixOutput,
};
use super::elementwise::dtype_problem;
use crate::context::CudaContext;
use crate::error::Error;
use crate::types::{CudaBuffer, CudaDeviceAddress, DType, Tensor};
use vstd::prelude::*;

verus! {

/// `apxinf_kv_cache_append_decode_*`: one token at a device position.
#[derive(Clone, Copy, Debug, PartialEq, Eq, Structural)]
pub struct AppendAt {
    pub dtype: DType,
    pub cache: usize,
    pub input: usize,
    pub kv_heads: u32,
    pub head_dim: u32,
    pub max_seq_len: u32,
    pub position: usize,
}

pub const APPEND: &'static str = "KV append";

pub const DECODE_APPEND: &'static str = "decode KV append";

pub open spec fn append_at_problem(
    ctx: CudaContext,
    dtype: DType,
    cache: CudaBuffer,
    input: CudaBuffer,
    kv_heads: usize,
    head_dim: usize,
    max_seq_len: usize,
    position: CudaDeviceAddress,
) -> Option<Error> {
    match byte_size(dtype, seq![kv_heads, max_seq_len, head_dim], APPEND) {
        Err(error) => Some(error),
        Ok(cache_bytes) => match byte_size(dtype, seq![kv_heads, head_dim], APPEND) {
            Err(error) => Some(error),
            Ok(input_bytes) => first_of(
                buffer_problem(ctx.device_id, APPEND, "cache", cache, cache_bytes as int),
                first_of(
                    buffer_problem(ctx.device_id, APPEND, "input", input, input_bytes as int),
                    first_of(
                        address_problem(ctx.device_id, APPEND, "position", position, 4),
                        dtype_problem(DECODE_APPEND, dtype),
                    ),
                ),
            ),
        },
    }
}

/// Append one token to caller-owned KV cache using a device position.
pub fn append_at(
    ctx: &CudaContext,
    dtype: DType,
    cache: &CudaBuffer,
    input: &CudaBuffer,
    kv_heads: usize,
    head_dim: usize,
    max_seq_len: usize,
    position: CudaDeviceAddress,
) -> (result: Result<AppendAt, Error>)
    ensures
        result == unless(
            append_at_problem(
                *ctx,
                dtype,
                *cache,
                *input,
                kv_heads,
                head_dim,
                max_seq_len,
                position,
            ),
            AppendAt {
                dtype,
                cache: cache.address,
                input: input.address,
                kv_heads: kv_heads as u32,
                head_dim: head_dim as u32,
                max_seq_len: max_seq_len as u32,
                position: position.address,
            },
        ),
{
    let whole: Vec<usize> = vec![kv_heads, max_seq_len, head_dim];
    let row: Vec<usize> = vec![kv_heads, head_dim];
    assert(whole@ =~= seq![kv_heads, max_seq_len, head_dim]);
    assert(row@ =~= seq![kv_heads, head_dim]);
    let cache_bytes: usize = checked_bytes(dtype, whole.as_slice(), APPEND)?;
    let input_bytes: usize = checked_bytes(dtype, row.as_slice(), APPEND)?;
    require_buffer(ctx, APPEND, "cache", cache, cache_bytes)?;
    require_buffer(ctx, APPEND, "input", input, input_bytes)?;
    require_address(ctx, APPEND, "position", position, 4)?;
    if !(dtype == DType::F32 || dtype == DType::BF16) {
        return Err(Error::UnsupportedDType { operation: DECODE_APPEND, dtype });
    }
    Ok(
        AppendAt {
            dtype,
            cache: cache.address,
            input: input.address,
            kv_heads: kv_heads as u32,
            head_dim: head_dim as u32,
            max_seq_len: max_seq_len as u32,
            position: position.address,
        },
    )
}

/// `apxinf_kv_cache_append_*`: rows after the first `seq_len` ones.
#[derive(Clone, Copy, Debug, PartialEq, Eq, Structural)]
pub struct AppendRows {
    pub dtype: DType,
    pub cache: usize,
    pub input: usize,
    pub kv_heads: u32,
    pub head_dim: u32,
    pub max_seq_len: u32,
    pub seq_len: u32,
    pub append_len: u32,
}

/// Append K/V rows to a KV cache buffer.
pub fn append(
    cache_buf: &CudaBuffer,
    new_data: &Tensor,
    n_kv_heads: usize,
    head_dim: usize,
    max_seq_len: usize,
    seq_len: usize,
    append_len: usize,
) -> (result: Result<AppendRows, Error>)
    ensures
        result == unless(
            first_of(
                dtype_problem("kv_cache_append", new_data.dtype),
                pointer_problem(*new_data),
            ),
            AppendRows {
                dtype: new_data.dtype,
                cache: cache_buf.address,
                input: new_data.buffer.address,
                kv_heads: n_kv_heads as u32,
                head_dim: head_dim as u32,
                max_seq_len: max_seq_len as u32,
                seq_len: seq_len as u32,
                append_len: append_len as u32,
            },
        ),
{
    let dtype = new_data.dtype;
    if !(dtype == DType::F32 || dtype == DType::BF16) {
        return Err(Error::UnsupportedDType { operation: "kv_cache_append", dtype });
    }
    let input: usize = gpu_ptr(new_data)?;
    Ok(
        AppendRows {
            dtype,
            cache: cache_buf.address,
            input,
            kv_heads: n_kv_heads as u32,
            head_dim: head_dim as u32,
            max_seq_len: max_seq_len as u32,
            seq_len: seq_len as u32,
            append_len: append_len as u32,
        },
    )
}

/// A copy of `bytes` bytes to the start of a new matrix.
#[derive(Clone, Copy, Debug, PartialEq, Eq, Structural)]
pub struct PrefixCopy {
    pub source: usize,
    pub bytes: usize,
    pub output: MatrixOutput,
}

pub const PREFIX_BF16: &'static str = "static inference BF16 prefix KV cache has incompatible shape";

pub const PREFIX_F16: &'static str =
    "static inference prefix KV cache expected FP16 with room for the prefix";

pub open spec fn prefix_problem(
    dtype: DType,
    text: &'static str,
    prefix: Tensor,
    total_rows: usize,
) -> Option<Error> {
    match matrix_extents(prefix, "prefix KV cache") {
        Err(error) => Some(error),
        Ok((prefix_rows, cols)) => if prefix.dtype != dtype || total_rows < prefix_rows {
            Some(Error::Other(text))
        } else {
            first_of(
                output_problem(dtype, total_rows as int, cols as int),
                pointer_problem(prefix),
            )
        },
    }
}

pub open spec fn prefix_copy(dtype: DType, prefix: Tensor, total_rows: usize) -> PrefixCopy {
    PrefixCopy {
        source: prefix.buffer.address,
        bytes: (prefix.dims@[0] * prefix.dims@[1] * 2) as usize,
        output: matrix_output(dtype, total_rows, prefix.dims@[1]),
    }
}

fn reserve_prefix(dtype: DType, text: &'static str, prefix: &Tensor, total_rows: usize) -> (result:
    Result<PrefixCopy, Error>)
    requires
        dtype == DType::BF16 || dtype == DType::F16,
    ensures
        result == unless(
            prefix_problem(dtype, text, *prefix, total_rows),
            prefix_copy(dtype, *prefix, total_rows),
        ),
{
    let (prefix_rows, cols) = matrix_shape(prefix, "prefix KV cache")?;
    if prefix.dtype != dtype || total_rows < prefix_rows {
        return Err(Error::Other(text));
    }
    let output = allocate_matrix(dtype, total_rows, cols)?;
    let source: usize = gpu_ptr(prefix)?;
    assert(0 <= prefix_rows * cols <= total_rows * cols) by (nonlinear_arith)
        requires
            prefix_rows <= total_rows,
            cols >= 0,
    ;
    assert(output_problem(dtype, total_rows as int, cols as int) is None);
    assert(total_rows * cols * 2 <= usize::MAX);
    Ok(PrefixCopy { source, bytes: prefix_rows * cols * 2, output })
}

/// Allocate a persistent BF16 K/V cache and copy the prefix into its first
/// rows.
pub fn reserve_prefix_bf16(prefix: &Tensor, total_rows: usize) -> (result: Result<PrefixCopy, Error>)
    ensures
        result == unless(
            prefix_problem(DType::BF16, PREFIX_BF16, *prefix, total_rows),
            prefix_copy(DType::BF16, *prefix, total_rows),
        ),
{
    reserve_prefix(DType::BF16, PREFIX_BF16, prefix, total_rows)
}

/// Allocate a persistent FP16 K/V cache and copy the prefix into its first
/// rows.
pub fn reserve_prefix_f16(prefix: &Tensor, total_rows: usize) -> (result: Result<PrefixCopy, Error>)
    ensures
        result == unless(
            prefix_problem(DType::F16, PREFIX_F16, *prefix, total_rows),
            prefix_copy(DType::F16, *prefix, total_rows),
        ),
{
    reserve_prefix(DType::F16, PREFIX_F16, prefix, total_rows)
}

/// A prefix that is accepted fits into the cache that is reserved for it.
pub proof fn lemma_prefix_fits(dtype: DType, text: &'static str, prefix: Tensor, total_rows: usize)
    requires
        dtype == DType::BF16 || dtype == DType::F16,
        prefix_problem(dtype, text, prefix, total_rows) is None,
    ensures
        prefix_copy(dtype, prefix, total_rows).bytes <= prefix_copy(
            dtype,
            prefix,
            total_rows,
        ).output.bytes,
{
    let rows = prefix.dims@[0];
    let cols = prefix.dims@[1];
    assert(0 <= rows * cols <= total_rows * cols) by (nonlinear_arith)
        requires
            rows <= total_rows,
            cols >= 0,
    ;
}

} // verus!
