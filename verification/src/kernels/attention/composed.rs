//! Grouped-query attention composed of matrix products and a row softmax.
//!
//! Scores and probabilities stay 32-bit floats from end to end. Query rows are
//! taken in chunks, so that the scores of one chunk are all that is held.

use super::super::contracts::{lemma_product3, tensor_bytes, tensor_fits, tensor_size};
use crate::context::CudaContext;
use crate::cublas::{row_major, stored, CublasCall, CublasHandle, CublasTranspose, Scalar};
use crate::ffi::cublas::{cublasComputeType_t, cublasOperation_t, cudaDataType_t};
use crate::laws::products::{
    has_extents, launched_address, launched_entry, lemma_call_is_product, lemma_same_rows,
    matrix, product_entry, transposed,
};
use crate::types::{CudaBuffer, DType, Tensor};
use vstd::prelude::*;

verus! {

/// Query rows per chunk.
pub const CHUNK: usize = 1024;

/// The extents of one attention call: queries `[rows, heads, head_dim]`, keys
/// and values `[kv_rows, kv_heads, head_dim]`, of which the first `key_tokens`
/// rows count.
#[derive(Clone, Copy, Debug, PartialEq, Eq, Structural)]
pub struct ComposedShape {
    pub rows: usize,
    pub heads: usize,
    pub kv_rows: usize,
    pub kv_heads: usize,
    pub head_dim: usize,
    pub key_tokens: usize,
    pub causal: bool,
}

/// The device memory of one call, all of it 32-bit floats.
#[derive(Clone, Copy, Debug, PartialEq, Eq, Structural)]
pub struct ComposedBuffers {
    pub query: CudaBuffer,
    pub key: CudaBuffer,
    pub value: CudaBuffer,
    pub output: CudaBuffer,
    pub scores: CudaBuffer,
}

/// `apxinf_static_row_softmax_causal_f32` in place: `rows` rows of `cols`
/// scores, row `i` belonging to token `i / heads`, which sees the keys up to
/// and including `kv_offset + i / heads`.
#[derive(Clone, Copy, Debug, PartialEq, Eq, Structural)]
pub struct RowSoftmax {
    pub scores: usize,
    pub cols: u32,
    pub rows: u32,
    pub kv_offset: u32,
    pub heads: u32,
}

#[derive(Clone, Copy, Debug, PartialEq, Eq, Structural)]
pub enum ComposedStep {
    Product(CublasCall),
    Softmax(RowSoftmax),
}

/// A conversion of `count` elements between BF16 and 32-bit floats.
#[derive(Clone, Copy, Debug, PartialEq, Eq, Structural)]
pub struct Cast {
    pub source: usize,
    pub target: usize,
    pub count: usize,
}

/// What a call needs: its extents, the addresses of its operands, the bytes of
/// each buffer, and how many chunks are run.
#[derive(Clone, Copy, Debug, PartialEq, Eq, Structural)]
pub struct ComposedPlan {
    pub shape: ComposedShape,
    pub query: usize,
    pub key: usize,
    pub value: usize,
    pub query_bytes: usize,
    pub key_bytes: usize,
    pub scores_bytes: usize,
    pub output_bytes: usize,
    pub chunks: usize,
}

pub open spec fn least(a: int, b: int) -> int {
    if a <= b {
        a
    } else {
        b
    }
}

impl ComposedShape {
    /// Query heads per key head.
    pub open spec fn group(self) -> int {
        self.heads as int / self.kv_heads as int
    }

    /// Keys before the first query row.
    pub open spec fn base(self) -> int {
        if self.causal {
            self.key_tokens - self.rows
        } else {
            0
        }
    }

    pub open spec fn query_size(self) -> int {
        self.rows * self.heads * self.head_dim * 4
    }

    pub open spec fn key_size(self) -> int {
        self.kv_rows * self.kv_heads * self.head_dim * 4
    }

    pub open spec fn scores_size(self) -> int {
        self.heads * least(CHUNK as int, self.rows as int) * self.key_tokens * 4
    }

    /// The heads group evenly, the keys exist and reach the last query row, and
    /// every size is a machine word.
    pub open spec fn valid(self) -> bool {
        &&& self.kv_heads > 0
        &&& self.heads as int % self.kv_heads as int == 0
        &&& self.rows > 0 ==> self.key_tokens > 0
        &&& self.key_tokens <= self.kv_rows
        &&& self.causal ==> self.rows <= self.key_tokens
        &&& self.rows * self.heads <= usize::MAX
        &&& self.rows * self.heads * self.head_dim <= usize::MAX
        &&& self.query_size() <= usize::MAX
        &&& self.kv_rows * self.kv_heads <= usize::MAX
        &&& self.kv_rows * self.kv_heads * self.head_dim <= usize::MAX
        &&& self.key_size() <= usize::MAX
        &&& self.heads * least(CHUNK as int, self.rows as int) <= usize::MAX
        &&& self.heads * least(CHUNK as int, self.rows as int) * self.key_tokens <= usize::MAX
        &&& self.scores_size() <= usize::MAX
    }

    /// The number of chunks.
    pub open spec fn chunk_count(self) -> int {
        (self.rows + CHUNK - 1) / CHUNK as int
    }

    /// The first row of a chunk.
    pub open spec fn start(self, chunk: int) -> int {
        chunk * CHUNK
    }

    /// The rows of a chunk.
    pub open spec fn len(self, chunk: int) -> int {
        least(CHUNK as int, self.rows - self.start(chunk))
    }

    /// How many keys the rows of a chunk attend to.
    pub open spec fn key_end(self, chunk: int) -> int {
        if self.causal {
            self.base() + self.start(chunk) + self.len(chunk)
        } else {
            self.key_tokens as int
        }
    }

    /// The last key that the first row of a chunk sees. An offset beyond all
    /// keys masks nothing.
    pub open spec fn kv_offset(self, chunk: int) -> int {
        if self.causal {
            self.base() + self.start(chunk)
        } else {
            self.key_tokens as int
        }
    }

    /// The key head of a query head.
    pub open spec fn kv_head(self, head: int) -> int {
        head / self.group()
    }

    /// Where the rows of a chunk lie for one head of a packed
    /// `[rows, heads, head_dim]` buffer.
    pub open spec fn rows_part(self, buffer: CudaBuffer, chunk: int, head: int) -> CudaBuffer {
        buffer.part(
            (self.start(chunk) * self.heads + head) * self.head_dim * 4,
            ((self.len(chunk) - 1) * self.heads * self.head_dim + self.head_dim) * 4,
        )
    }

    /// Where the keys or values of a chunk lie for one query head.
    pub open spec fn keys_part(self, buffer: CudaBuffer, chunk: int, head: int) -> CudaBuffer {
        buffer.part(
            self.kv_head(head) * self.head_dim * 4,
            ((self.key_end(chunk) - 1) * self.kv_heads * self.head_dim + self.head_dim) * 4,
        )
    }

    /// Where the scores of one head lie: rows of `[len, heads, key_end]`.
    pub open spec fn scores_part(self, buffer: CudaBuffer, chunk: int, head: int) -> CudaBuffer {
        buffer.part(
            head * self.key_end(chunk) * 4,
            ((self.len(chunk) - 1) * self.heads + 1) * self.key_end(chunk) * 4,
        )
    }

    /// `scores = queries @ keys^T / sqrt(head_dim)` for one head.
    pub open spec fn score_product(self, buffers: ComposedBuffers, chunk: int, head: int) -> CublasCall {
        CublasCall::GemmEx(
            row_major(
                cublasOperation_t::CUBLAS_OP_N,
                cublasOperation_t::CUBLAS_OP_T,
                self.len(chunk) as i32,
                self.key_end(chunk) as i32,
                self.head_dim as i32,
                Scalar::InverseRoot(self.head_dim),
                stored(
                    self.rows_part(buffers.query, chunk, head),
                    cudaDataType_t::CUDA_R_32F,
                    (self.heads * self.head_dim) as i32,
                ),
                stored(
                    self.keys_part(buffers.key, chunk, head),
                    cudaDataType_t::CUDA_R_32F,
                    (self.kv_heads * self.head_dim) as i32,
                ),
                Scalar::Real(0),
                stored(
                    self.scores_part(buffers.scores, chunk, head),
                    cudaDataType_t::CUDA_R_32F,
                    (self.heads * self.key_end(chunk)) as i32,
                ),
                cublasComputeType_t::CUBLAS_COMPUTE_32F,
                99,
            ),
        )
    }

    /// `output = probabilities @ values` for one head.
    pub open spec fn value_product(self, buffers: ComposedBuffers, chunk: int, head: int) -> CublasCall {
        CublasCall::GemmEx(
            row_major(
                cublasOperation_t::CUBLAS_OP_N,
                cublasOperation_t::CUBLAS_OP_N,
                self.len(chunk) as i32,
                self.head_dim as i32,
                self.key_end(chunk) as i32,
                Scalar::Real(0x3f80_0000),
                stored(
                    self.scores_part(buffers.scores, chunk, head),
                    cudaDataType_t::CUDA_R_32F,
                    (self.heads * self.key_end(chunk)) as i32,
                ),
                stored(
                    self.keys_part(buffers.value, chunk, head),
                    cudaDataType_t::CUDA_R_32F,
                    (self.kv_heads * self.head_dim) as i32,
                ),
                Scalar::Real(0),
                stored(
                    self.rows_part(buffers.output, chunk, head),
                    cudaDataType_t::CUDA_R_32F,
                    (self.heads * self.head_dim) as i32,
                ),
                cublasComputeType_t::CUBLAS_COMPUTE_32F,
                99,
            ),
        )
    }

    /// The softmax over the scores of a chunk.
    pub open spec fn row_softmax(self, buffers: ComposedBuffers, chunk: int) -> RowSoftmax {
        RowSoftmax {
            scores: buffers.scores.address,
            cols: self.key_end(chunk) as u32,
            rows: (self.len(chunk) * self.heads) as u32,
            kv_offset: self.kv_offset(chunk) as u32,
            heads: self.heads as u32,
        }
    }

    /// Everything that is run for one chunk, in order.
    pub open spec fn steps(self, buffers: ComposedBuffers, chunk: int) -> Seq<ComposedStep> {
        Seq::new(
            self.heads as nat,
            |head: int| ComposedStep::Product(self.score_product(buffers, chunk, head)),
        ).push(ComposedStep::Softmax(self.row_softmax(buffers, chunk))) + Seq::new(
            self.heads as nat,
            |head: int| ComposedStep::Product(self.value_product(buffers, chunk, head)),
        )
    }

    /// Whether the buffers are as large as the plan asks.
    pub open spec fn fits(self, buffers: ComposedBuffers) -> bool {
        &&& buffers.query.in_memory() && buffers.query.len >= self.query_size()
        &&& buffers.output.in_memory() && buffers.output.len >= self.query_size()
        &&& buffers.key.in_memory() && buffers.key.len >= self.key_size()
        &&& buffers.value.in_memory() && buffers.value.len >= self.key_size()
        &&& buffers.scores.in_memory() && buffers.scores.len >= self.scores_size()
    }
}

proof fn lemma_inside(row: int, rows: int, column: int, columns: int, width: int)
    requires
        0 <= row < rows,
        0 <= column < columns,
        width >= 0,
    ensures
        0 <= row * columns + column,
        (row * columns + column) * width + width <= rows * columns * width,
        0 <= (row * columns + column) * width,
        row * columns + column < rows * columns,
        row * columns <= rows * columns,
        0 <= row * columns,
{
    assert(row * columns + columns <= rows * columns) by (nonlinear_arith)
        requires
            row < rows,
            columns > 0,
    ;
    assert(0 <= row * columns) by (nonlinear_arith)
        requires
            row >= 0,
            columns > 0,
    ;
    let x = row * columns + column;
    let y = rows * columns;
    assert(x * width + width <= y * width) by (nonlinear_arith)
        requires
            x + 1 <= y,
            width >= 0,
    ;
    assert(0 <= x * width) by (nonlinear_arith)
        requires
            x >= 0,
            width >= 0,
    ;
}

/// Every key head exists: query heads are grouped evenly over them.
pub proof fn lemma_kv_head_exists(shape: ComposedShape, head: int)
    requires
        shape.valid(),
        0 <= head < shape.heads,
    ensures
        shape.group() > 0,
        0 <= shape.kv_head(head) < shape.kv_heads,
{
    let group = shape.group();
    let kv = shape.kv_heads as int;
    vstd::arithmetic::div_mod::lemma_fundamental_div_mod(shape.heads as int, kv);
    assert(group > 0) by (nonlinear_arith)
        requires
            shape.heads == kv * group,
            shape.heads > 0,
            kv > 0,
    ;
    assert(0 <= head / group < kv) by (nonlinear_arith)
        requires
            0 <= head < kv * group,
            group > 0,
    ;
}

/// The chunks cover every query row exactly once.
pub proof fn lemma_chunks_cover(shape: ComposedShape, row: int)
    requires
        0 <= row < shape.rows,
    ensures
        0 <= row / CHUNK as int,
        row / (CHUNK as int) < shape.chunk_count(),
        forall|chunk: int|
            0 <= chunk < shape.chunk_count() ==> ((#[trigger] shape.start(chunk) <= row
                < shape.start(chunk) + shape.len(chunk)) <==> chunk == row / CHUNK as int),
{
}

proof fn lemma_chunk(shape: ComposedShape, chunk: int)
    requires
        shape.valid(),
        0 <= chunk < shape.chunk_count(),
    ensures
        0 <= shape.start(chunk) < shape.rows,
        1 <= shape.len(chunk) <= CHUNK,
        shape.start(chunk) + shape.len(chunk) <= shape.rows,
        1 <= shape.key_end(chunk) <= shape.key_tokens,
        0 <= shape.kv_offset(chunk) <= shape.key_tokens,
{
}

proof fn lemma_rows_are_inside(shape: ComposedShape, chunk: int, head: int)
    requires
        shape.valid(),
        0 <= chunk < shape.chunk_count(),
        0 <= head < shape.heads,
    ensures
        ({
            let t0 = shape.start(chunk);
            let c = shape.len(chunk);
            let heads = shape.heads as int;
            let d = shape.head_dim as int;
            &&& 0 <= t0 * heads <= t0 * heads + head
            &&& 0 <= (t0 * heads + head) * d
            &&& 0 <= (c - 1) * heads <= (c - 1) * heads + heads
            &&& 0 <= (c - 1) * heads * d
            &&& (t0 * heads + head) * d * 4 + ((c - 1) * heads * d + d) * 4 <= shape.query_size()
            &&& t0 * heads + head <= shape.rows * shape.heads
            &&& (c - 1) * heads <= shape.rows * shape.heads
        }),
{
    lemma_chunk(shape, chunk);
    let t0 = shape.start(chunk);
    let c = shape.len(chunk);
    let heads = shape.heads as int;
    let d = shape.head_dim as int;
    lemma_inside(t0 + c - 1, shape.rows as int, head, heads, d);
    lemma_inside(t0, shape.rows as int, head, heads, d);
    lemma_inside(c - 1, shape.rows as int, head, heads, d);
    assert((t0 * heads + head) * d + ((c - 1) * heads * d + d) == ((t0 + c - 1) * heads + head) * d
        + d) by (nonlinear_arith);
    assert((c - 1) * heads * d >= 0) by (nonlinear_arith)
        requires
            (c - 1) * heads >= 0,
            d >= 0,
    ;
}

proof fn lemma_keys_are_inside(shape: ComposedShape, chunk: int, head: int)
    requires
        shape.valid(),
        0 <= chunk < shape.chunk_count(),
        0 <= head < shape.heads,
    ensures
        ({
            let g = shape.kv_head(head);
            let kend = shape.key_end(chunk);
            let kv = shape.kv_heads as int;
            let d = shape.head_dim as int;
            &&& 0 <= g * d
            &&& 0 <= (kend - 1) * kv <= shape.kv_rows * shape.kv_heads
            &&& 0 <= (kend - 1) * kv * d
            &&& g * d * 4 + ((kend - 1) * kv * d + d) * 4 <= shape.key_size()
        }),
{
    lemma_chunk(shape, chunk);
    lemma_kv_head_exists(shape, head);
    let g = shape.kv_head(head);
    let kend = shape.key_end(chunk);
    let kv = shape.kv_heads as int;
    let d = shape.head_dim as int;
    lemma_inside(kend - 1, shape.kv_rows as int, g, kv, d);
    assert(g * d + ((kend - 1) * kv * d + d) == ((kend - 1) * kv + g) * d + d) by (nonlinear_arith);
    assert((kend - 1) * kv * d >= 0) by (nonlinear_arith)
        requires
            (kend - 1) * kv >= 0,
            d >= 0,
    ;
    assert(g * d >= 0) by (nonlinear_arith)
        requires
            g >= 0,
            d >= 0,
    ;
}

proof fn lemma_scores_are_inside(shape: ComposedShape, chunk: int, head: int)
    requires
        shape.valid(),
        0 <= chunk < shape.chunk_count(),
        0 <= head < shape.heads,
    ensures
        ({
            let c = shape.len(chunk);
            let kend = shape.key_end(chunk);
            let heads = shape.heads as int;
            &&& 0 <= head * kend
            &&& 0 <= (c - 1) * heads <= usize::MAX - 1
            &&& 0 <= ((c - 1) * heads + 1) * kend
            &&& head * kend * 4 + ((c - 1) * heads + 1) * kend * 4 <= shape.scores_size()
        }),
{
    lemma_chunk(shape, chunk);
    lemma_strides(shape, chunk);
    let c = shape.len(chunk);
    let kend = shape.key_end(chunk);
    let heads = shape.heads as int;
    lemma_inside(c - 1, c, head, heads, kend);
    assert(head * kend + ((c - 1) * heads + 1) * kend == ((c - 1) * heads + head) * kend + kend)
        by (nonlinear_arith);
    let most = least(CHUNK as int, shape.rows as int);
    assert(c * heads * kend <= heads * most * shape.key_tokens) by (nonlinear_arith)
        requires
            0 <= c <= most,
            heads > 0,
            0 <= kend <= shape.key_tokens,
    ;
    assert(head * kend >= 0) by (nonlinear_arith)
        requires
            head >= 0,
            kend >= 0,
    ;
    assert(((c - 1) * heads + 1) * kend >= 0) by (nonlinear_arith)
        requires
            (c - 1) * heads >= 0,
            kend >= 0,
    ;
}

/// Every step of a chunk works inside its buffers.
pub proof fn lemma_parts_are_inside(
    shape: ComposedShape,
    buffers: ComposedBuffers,
    chunk: int,
    head: int,
)
    requires
        shape.valid(),
        shape.fits(buffers),
        0 <= chunk < shape.chunk_count(),
        0 <= head < shape.heads,
    ensures
        inside(shape.rows_part(buffers.query, chunk, head), buffers.query),
        inside(shape.rows_part(buffers.output, chunk, head), buffers.output),
        inside(shape.keys_part(buffers.key, chunk, head), buffers.key),
        inside(shape.keys_part(buffers.value, chunk, head), buffers.value),
        inside(shape.scores_part(buffers.scores, chunk, head), buffers.scores),
{
    lemma_rows_are_inside(shape, chunk, head);
    lemma_keys_are_inside(shape, chunk, head);
    lemma_scores_are_inside(shape, chunk, head);
}

/// Whether one span lies inside another.
pub open spec fn inside(part: CudaBuffer, whole: CudaBuffer) -> bool {
    whole.address <= part.address && part.address + part.len <= whole.address + whole.len
}

/// A causal row sees the keys up to its own position and no others, however
/// the rows are cut into chunks; without the mask every row sees every key.
pub proof fn lemma_mask_is_exact(
    shape: ComposedShape,
    buffers: ComposedBuffers,
    chunk: int,
    row: int,
    key: int,
)
    requires
        shape.valid(),
        shape.key_tokens <= u32::MAX,
        0 <= chunk < shape.chunk_count(),
        shape.start(chunk) <= row < shape.start(chunk) + shape.len(chunk),
        0 <= key,
    ensures
        ({
            let softmax = shape.row_softmax(buffers, chunk);
            let seen = key < softmax.cols && key <= softmax.kv_offset + (row - shape.start(chunk));
            &&& shape.causal ==> (seen <==> key <= shape.key_tokens - shape.rows + row)
            &&& !shape.causal ==> (seen <==> key < shape.key_tokens)
        }),
{
    lemma_chunk(shape, chunk);
}

/// The products write the output packed: element `column` of row `row` and
/// head `head` lies at `(row * heads + head) * head_dim + column`.
pub proof fn lemma_output_is_packed(
    shape: ComposedShape,
    buffers: ComposedBuffers,
    chunk: int,
    head: int,
    row: int,
    column: int,
)
    requires
        shape.valid(),
        shape.fits(buffers),
        0 <= chunk < shape.chunk_count(),
        0 <= head < shape.heads,
        shape.start(chunk) <= row < shape.start(chunk) + shape.len(chunk),
        0 <= column < shape.head_dim,
    ensures
        shape.rows_part(buffers.output, chunk, head).address + ((row - shape.start(chunk)) * (
        shape.heads * shape.head_dim) + column) * 4 == buffers.output.address + ((row * shape.heads
            + head) * shape.head_dim + column) * 4,
{
    lemma_rows_are_inside(shape, chunk, head);
    let t0 = shape.start(chunk);
    let heads = shape.heads as int;
    let d = shape.head_dim as int;
    assert((t0 * heads + head) * d + (row - t0) * (heads * d) == (row * heads + head) * d)
        by (nonlinear_arith);
}

/// What composed attention over some tensors needs.
pub open spec fn composed_plan(
    q: Tensor,
    k: Tensor,
    v: Tensor,
    key_tokens: usize,
    causal: bool,
) -> ComposedPlan {
    let shape = composed_shape(q, k, key_tokens, causal);
    ComposedPlan {
        shape,
        query: q.buffer.address,
        key: k.buffer.address,
        value: v.buffer.address,
        query_bytes: shape.query_size() as usize,
        key_bytes: shape.key_size() as usize,
        scores_bytes: shape.scores_size() as usize,
        output_bytes: tensor_size(q) as usize,
        chunks: shape.chunk_count() as usize,
    }
}

pub open spec fn composed_shape(q: Tensor, k: Tensor, key_tokens: usize, causal: bool) -> ComposedShape {
    ComposedShape {
        rows: q.dims@[0],
        heads: q.dims@[1],
        kv_rows: k.dims@[0],
        kv_heads: k.dims@[1],
        head_dim: q.dims@[2],
        key_tokens,
        causal,
    }
}

/// Composed grouped-query attention: chunked 32-bit products of queries and
/// keys, the fused causal softmax, and 32-bit products with the values.
///
/// The queries, keys and values are widened into the planned buffers
/// (`widen_operands`), the steps of the chunks are run in order, and the 32-bit
/// output is rounded once (`round_output`).
pub fn composed_gqa_bf16(q: &Tensor, k: &Tensor, v: &Tensor, key_tokens: usize, causal: bool) -> (plan:
    ComposedPlan)
    requires
        q.dims@.len() == 3,
        k.dims@.len() == 3,
        v.dims@ == k.dims@,
        tensor_fits(*q),
        composed_shape(*q, *k, key_tokens, causal).valid(),
    ensures
        plan == composed_plan(*q, *k, *v, key_tokens, causal),
{
    let shape = ComposedShape {
        rows: q.dims[0],
        heads: q.dims[1],
        kv_rows: k.dims[0],
        kv_heads: k.dims[1],
        head_dim: q.dims[2],
        key_tokens,
        causal,
    };
    let most: usize = if CHUNK <= shape.rows {
        CHUNK
    } else {
        shape.rows
    };
    let chunks: usize = if shape.rows % CHUNK == 0 {
        shape.rows / CHUNK
    } else {
        shape.rows / CHUNK + 1
    };
    ComposedPlan {
        shape,
        query: q.buffer.address,
        key: k.buffer.address,
        value: v.buffer.address,
        query_bytes: shape.rows * shape.heads * shape.head_dim * 4,
        key_bytes: shape.kv_rows * shape.kv_heads * shape.head_dim * 4,
        scores_bytes: shape.heads * most * shape.key_tokens * 4,
        output_bytes: tensor_bytes(q),
        chunks,
    }
}

impl ComposedPlan {
    /// The casts before the first chunk: queries, keys and values, in that
    /// order, each whole.
    pub open spec fn widenings(self, buffers: ComposedBuffers) -> Seq<Cast> {
        let queries = (self.shape.rows * self.shape.heads * self.shape.head_dim) as usize;
        let keys = (self.shape.kv_rows * self.shape.kv_heads * self.shape.head_dim) as usize;
        seq![
            Cast { source: self.query, target: buffers.query.address, count: queries },
            Cast { source: self.key, target: buffers.key.address, count: keys },
            Cast { source: self.value, target: buffers.value.address, count: keys },
        ]
    }

    /// The cast behind the last chunk: the output, whole.
    pub open spec fn rounding(self, buffers: ComposedBuffers, result: CudaBuffer) -> Cast {
        Cast {
            source: buffers.output.address,
            target: result.address,
            count: (self.shape.rows * self.shape.heads * self.shape.head_dim) as usize,
        }
    }
}

/// The BF16 operands as 32-bit floats: the casts to run before the chunks.
pub fn widen_operands(plan: &ComposedPlan, buffers: &ComposedBuffers) -> (casts: Vec<Cast>)
    requires
        plan.shape.valid(),
    ensures
        casts@ == plan.widenings(*buffers),
{
    let shape = &plan.shape;
    let queries: usize = shape.rows * shape.heads * shape.head_dim;
    let keys: usize = shape.kv_rows * shape.kv_heads * shape.head_dim;
    let casts = vec![
        Cast { source: plan.query, target: buffers.query.address, count: queries },
        Cast { source: plan.key, target: buffers.key.address, count: keys },
        Cast { source: plan.value, target: buffers.value.address, count: keys },
    ];
    assert(casts@ =~= plan.widenings(*buffers));
    casts
}

/// The 32-bit output as BF16: the one cast to run after the chunks.
pub fn round_output(plan: &ComposedPlan, buffers: &ComposedBuffers, result: &CudaBuffer) -> (cast:
    Cast)
    requires
        plan.shape.valid(),
    ensures
        cast == plan.rounding(*buffers, *result),
{
    let shape = &plan.shape;
    Cast {
        source: buffers.output.address,
        target: result.address,
        count: shape.rows * shape.heads * shape.head_dim,
    }
}

/// The casts stay inside their memory: what they write is as large as the
/// buffers that were planned, and what they read is a whole operand.
pub proof fn lemma_casts_are_whole(
    q: Tensor,
    k: Tensor,
    v: Tensor,
    key_tokens: usize,
    causal: bool,
    buffers: ComposedBuffers,
    result: CudaBuffer,
)
    requires
        q.dims@.len() == 3,
        k.dims@.len() == 3,
        v.dims@ == k.dims@,
        k.dims@[2] == q.dims@[2],
        q.dtype == DType::BF16,
        k.dtype == DType::BF16,
        v.dtype == DType::BF16,
        composed_shape(q, k, key_tokens, causal).valid(),
    ensures
        ({
            let plan = composed_plan(q, k, v, key_tokens, causal);
            let casts = plan.widenings(buffers);
            &&& casts[0].count * 4 == plan.query_bytes
            &&& casts[1].count * 4 == plan.key_bytes
            &&& casts[2].count * 4 == plan.key_bytes
            &&& plan.rounding(buffers, result).count * 4 == plan.query_bytes
            &&& casts[0].count * 2 == tensor_size(q)
            &&& casts[1].count * 2 == tensor_size(k)
            &&& casts[2].count * 2 == tensor_size(v)
            &&& plan.rounding(buffers, result).count * 2 == tensor_size(q)
        }),
{
    lemma_product3(q.dims@);
    lemma_product3(k.dims@);
    let shape = composed_shape(q, k, key_tokens, causal);
    assert(shape.rows * shape.heads * shape.head_dim >= 0) by (nonlinear_arith)
        requires
            shape.rows >= 0,
            shape.heads >= 0,
            shape.head_dim >= 0,
    ;
    assert(shape.kv_rows * shape.kv_heads * shape.head_dim >= 0) by (nonlinear_arith)
        requires
            shape.kv_rows >= 0,
            shape.kv_heads >= 0,
            shape.head_dim >= 0,
    ;
}

/// The extents of a chunk.
#[derive(Clone, Copy)]
struct ChunkExtents {
    start: usize,
    len: usize,
    key_end: usize,
    kv_offset: usize,
}

fn chunk_extents(shape: &ComposedShape, chunk: usize) -> (extents: ChunkExtents)
    requires
        shape.valid(),
        chunk < shape.chunk_count(),
    ensures
        extents.start == shape.start(chunk as int),
        extents.len == shape.len(chunk as int),
        extents.key_end == shape.key_end(chunk as int),
        extents.kv_offset == shape.kv_offset(chunk as int),
{
    proof {
        lemma_chunk(*shape, chunk as int);
    }
    let start: usize = chunk * CHUNK;
    let rest: usize = shape.rows - start;
    let len: usize = if CHUNK <= rest {
        CHUNK
    } else {
        rest
    };
    if shape.causal {
        let base: usize = shape.key_tokens - shape.rows;
        ChunkExtents { start, len, key_end: base + start + len, kv_offset: base + start }
    } else {
        ChunkExtents { start, len, key_end: shape.key_tokens, kv_offset: shape.key_tokens }
    }
}

proof fn lemma_strides(shape: ComposedShape, chunk: int)
    requires
        shape.valid(),
        0 <= chunk < shape.chunk_count(),
    ensures
        shape.heads * shape.head_dim <= usize::MAX,
        shape.kv_heads * shape.head_dim <= usize::MAX,
        shape.heads * shape.key_end(chunk) <= usize::MAX,
        shape.len(chunk) * shape.heads <= usize::MAX,
{
    lemma_chunk(shape, chunk);
    let d = shape.head_dim as int;
    let heads = shape.heads as int;
    let kv = shape.kv_heads as int;
    let rows = shape.rows as int;
    let kv_rows = shape.kv_rows as int;
    let most = least(CHUNK as int, rows);
    assert(heads * d <= rows * heads * d) by (nonlinear_arith)
        requires
            rows >= 1,
            heads >= 0,
            d >= 0,
    ;
    assert(kv * d <= kv_rows * kv * d) by (nonlinear_arith)
        requires
            kv_rows >= 1,
            kv >= 0,
            d >= 0,
    ;
    assert(heads * shape.key_end(chunk) <= heads * most * shape.key_tokens) by (nonlinear_arith)
        requires
            0 <= shape.key_end(chunk) <= shape.key_tokens,
            most >= 1,
            heads >= 0,
    ;
    assert(shape.len(chunk) * heads <= heads * most) by (nonlinear_arith)
        requires
            0 <= shape.len(chunk) <= most,
            heads >= 0,
    ;
}

/// The rows of a chunk in a packed buffer, for one head.
fn rows_of(shape: &ComposedShape, buffer: &CudaBuffer, chunk: usize, head: usize) -> (part:
    CudaBuffer)
    requires
        shape.valid(),
        buffer.in_memory(),
        buffer.len >= shape.query_size(),
        chunk < shape.chunk_count(),
        head < shape.heads,
    ensures
        part == shape.rows_part(*buffer, chunk as int, head as int),
{
    let extents = chunk_extents(shape, chunk);
    proof {
        lemma_chunk(*shape, chunk as int);
        lemma_rows_are_inside(*shape, chunk as int, head as int);
    }
    let offset: usize = (extents.start * shape.heads + head) * shape.head_dim * 4;
    let len: usize = ((extents.len - 1) * shape.heads * shape.head_dim + shape.head_dim) * 4;
    buffer.slice(offset, len).unwrap()
}

/// The keys or values of a chunk, for one query head.
fn keys_of(shape: &ComposedShape, buffer: &CudaBuffer, chunk: usize, head: usize) -> (part:
    CudaBuffer)
    requires
        shape.valid(),
        buffer.in_memory(),
        buffer.len >= shape.key_size(),
        chunk < shape.chunk_count(),
        head < shape.heads,
    ensures
        part == shape.keys_part(*buffer, chunk as int, head as int),
{
    let extents = chunk_extents(shape, chunk);
    proof {
        lemma_chunk(*shape, chunk as int);
        lemma_kv_head_exists(*shape, head as int);
        lemma_keys_are_inside(*shape, chunk as int, head as int);
    }
    let kv_head: usize = head / (shape.heads / shape.kv_heads);
    let offset: usize = kv_head * shape.head_dim * 4;
    let len: usize = ((extents.key_end - 1) * shape.kv_heads * shape.head_dim + shape.head_dim)
        * 4;
    buffer.slice(offset, len).unwrap()
}

/// The scores of one head.
fn scores_of(shape: &ComposedShape, buffer: &CudaBuffer, chunk: usize, head: usize) -> (part:
    CudaBuffer)
    requires
        shape.valid(),
        buffer.in_memory(),
        buffer.len >= shape.scores_size(),
        chunk < shape.chunk_count(),
        head < shape.heads,
    ensures
        part == shape.scores_part(*buffer, chunk as int, head as int),
{
    let extents = chunk_extents(shape, chunk);
    proof {
        lemma_chunk(*shape, chunk as int);
        lemma_scores_are_inside(*shape, chunk as int, head as int);
    }
    let offset: usize = head * extents.key_end * 4;
    let len: usize = ((extents.len - 1) * shape.heads + 1) * extents.key_end * 4;
    buffer.slice(offset, len).unwrap()
}

fn score_call(
    cublas: &CublasHandle,
    shape: &ComposedShape,
    buffers: &ComposedBuffers,
    chunk: usize,
    head: usize,
) -> (call: CublasCall)
    requires
        shape.valid(),
        shape.fits(*buffers),
        chunk < shape.chunk_count(),
        head < shape.heads,
    ensures
        call == shape.score_product(*buffers, chunk as int, head as int),
{
    let extents = chunk_extents(shape, chunk);
    proof {
        lemma_strides(*shape, chunk as int);
    }
    cublas.gemm_ex(
        DType::F32,
        CublasTranspose::Normal,
        CublasTranspose::Transpose,
        extents.len,
        extents.key_end,
        shape.head_dim,
        Scalar::InverseRoot(shape.head_dim),
        &rows_of(shape, &buffers.query, chunk, head),
        (shape.heads * shape.head_dim) as i32,
        &keys_of(shape, &buffers.key, chunk, head),
        (shape.kv_heads * shape.head_dim) as i32,
        Scalar::Real(0),
        &scores_of(shape, &buffers.scores, chunk, head),
        (shape.heads * extents.key_end) as i32,
    ).unwrap()
}

fn value_call(
    cublas: &CublasHandle,
    shape: &ComposedShape,
    buffers: &ComposedBuffers,
    chunk: usize,
    head: usize,
) -> (call: CublasCall)
    requires
        shape.valid(),
        shape.fits(*buffers),
        chunk < shape.chunk_count(),
        head < shape.heads,
    ensures
        call == shape.value_product(*buffers, chunk as int, head as int),
{
    let extents = chunk_extents(shape, chunk);
    proof {
        lemma_strides(*shape, chunk as int);
    }
    cublas.gemm_ex(
        DType::F32,
        CublasTranspose::Normal,
        CublasTranspose::Normal,
        extents.len,
        shape.head_dim,
        extents.key_end,
        Scalar::Real(0x3f80_0000),
        &scores_of(shape, &buffers.scores, chunk, head),
        (shape.heads * extents.key_end) as i32,
        &keys_of(shape, &buffers.value, chunk, head),
        (shape.kv_heads * shape.head_dim) as i32,
        Scalar::Real(0),
        &rows_of(shape, &buffers.output, chunk, head),
        (shape.heads * shape.head_dim) as i32,
    ).unwrap()
}

/// Everything that is run for one chunk, in order: the scores of every head,
/// the softmax, and the output of every head.
pub fn chunk_steps(
    ctx: &CudaContext,
    shape: &ComposedShape,
    buffers: &ComposedBuffers,
    chunk: usize,
) -> (steps: Vec<ComposedStep>)
    requires
        shape.valid(),
        shape.fits(*buffers),
        chunk < shape.chunk_count(),
    ensures
        steps@ == shape.steps(*buffers, chunk as int),
{
    let extents = chunk_extents(shape, chunk);
    let mut steps: Vec<ComposedStep> = Vec::new();
    let mut head: usize = 0;
    while head < shape.heads
        invariant
            head <= shape.heads,
            shape.valid(),
            shape.fits(*buffers),
            chunk < shape.chunk_count(),
            steps@ == Seq::new(
                head as nat,
                |h: int| ComposedStep::Product(shape.score_product(*buffers, chunk as int, h)),
            ),
        decreases shape.heads - head,
    {
        steps.push(
            ComposedStep::Product(score_call(&ctx.cublas, shape, buffers, chunk, head)),
        );
        head = head + 1;
    }
    proof {
        lemma_strides(*shape, chunk as int);
    }
    steps.push(
        ComposedStep::Softmax(
            RowSoftmax {
                scores: buffers.scores.address,
                cols: extents.key_end as u32,
                rows: (extents.len * shape.heads) as u32,
                kv_offset: extents.kv_offset as u32,
                heads: shape.heads as u32,
            },
        ),
    );
    let ghost scored = steps@;
    let mut head: usize = 0;
    assert(scored =~= scored + Seq::new(
        0,
        |h: int| ComposedStep::Product(shape.value_product(*buffers, chunk as int, h)),
    ));
    while head < shape.heads
        invariant
            head <= shape.heads,
            shape.valid(),
            shape.fits(*buffers),
            chunk < shape.chunk_count(),
            steps@ == scored + Seq::new(
                head as nat,
                |h: int| ComposedStep::Product(shape.value_product(*buffers, chunk as int, h)),
            ),
        decreases shape.heads - head,
    {
        steps.push(
            ComposedStep::Product(value_call(&ctx.cublas, shape, buffers, chunk, head)),
        );
        head = head + 1;
    }
    assert(steps@ =~= shape.steps(*buffers, chunk as int));
    steps
}

/// What the memory of a chunk means: `scores` holds a row of scores for each query row and
/// head, and `probabilities` are those scores behind the softmax.
///
/// The score of row `row` of head `head` against key `key` is the scalar product of that
/// query row with that key of the head's key head, over the root of the head dimension;
/// the output is the sum of the values, each weighed by its probability.
pub proof fn lemma_chunk_composes_attention(
    ctx: CudaContext,
    shape: ComposedShape,
    buffers: ComposedBuffers,
    chunk: usize,
    steps: Vec<ComposedStep>,
    memory: spec_fn(int) -> int,
    head: int,
    row: int,
    key: int,
    column: int,
)
    requires
        call_ensures(chunk_steps, (&ctx, &shape, &buffers, chunk), steps),
        shape.valid(),
        shape.fits(buffers),
        chunk < shape.chunk_count(),
        0 <= head < shape.heads,
        chunk * 1024 <= row < chunk * 1024 + 1024,
        row < shape.rows,
        shape.heads * shape.head_dim <= i32::MAX,
        shape.kv_heads * shape.head_dim <= i32::MAX,
        shape.heads * shape.key_tokens <= i32::MAX,
        shape.rows * shape.heads <= u32::MAX,
        shape.head_dim <= i32::MAX,
    ensures
        steps@.len() == 2 * shape.heads + 1,
        steps@[head] matches ComposedStep::Product(CublasCall::GemmEx(_)),
        steps@[shape.heads as int] is Softmax,
        steps@[shape.heads + 1 + head] matches ComposedStep::Product(CublasCall::GemmEx(_)),
        ({
            let score = steps@[head]->Product_0->GemmEx_0;
            let softmax = steps@[shape.heads as int]->Softmax_0;
            let value = steps@[shape.heads + 1 + head]->Product_0->GemmEx_0;
            let (heads, d) = (shape.heads as int, shape.head_dim as int);
            let g = head / (shape.heads as int / shape.kv_heads as int);
            let i = row - chunk * 1024;
            let cols = softmax.cols as int;
            let width = shape.kv_heads * d;
            &&& has_extents(score, least(1024, shape.rows - chunk * 1024), cols, d)
            &&& score.alpha == Scalar::InverseRoot(shape.head_dim) && score.beta == Scalar::Real(0)
            &&& launched_entry(score, memory, 0, 0, i, key) == product_entry(
                matrix(memory, buffers.query.address + head * d * 4, 4, heads * d),
                transposed(matrix(memory, buffers.key.address + g * d * 4, 4, width)),
                d,
                row,
                key,
            )
            &&& launched_address(score, 0, i, key) == softmax.scores + ((i * heads + head) * cols
                + key) * 4
            &&& softmax.scores == buffers.scores.address && softmax.heads == heads
            &&& softmax.rows == least(1024, shape.rows - chunk * 1024) * heads
            &&& cols == (if shape.causal {
                shape.key_tokens - shape.rows + least(chunk * 1024 + 1024, shape.rows as int)
            } else {
                shape.key_tokens as int
            })
            &&& has_extents(value, least(1024, shape.rows - chunk * 1024), d, cols)
            &&& value.alpha == Scalar::Real(0x3f80_0000) && value.beta == Scalar::Real(0)
            &&& launched_entry(value, memory, 0, 0, i, column) == product_entry(
                matrix(memory, softmax.scores + head * cols * 4, 4, heads * cols),
                matrix(memory, buffers.value.address + g * d * 4, 4, width),
                cols,
                i,
                column,
            )
            &&& launched_address(value, 0, i, column) == buffers.output.address + ((row * heads
                + head) * d + column) * 4
        }),
{
    let at = chunk as int;
    let t0 = shape.start(at);
    let i = row - t0;
    let (heads, d) = (shape.heads as int, shape.head_dim as int);
    let g = shape.kv_head(head);
    let cols = shape.key_end(at);
    let kv = shape.kv_heads as int;
    lemma_chunk(shape, at);
    lemma_rows_are_inside(shape, at, head);
    lemma_keys_are_inside(shape, at, head);
    lemma_scores_are_inside(shape, at, head);
    lemma_strides(shape, at);
    assert(cols <= heads * shape.key_tokens && heads * cols <= heads * shape.key_tokens)
        by (nonlinear_arith)
        requires
            0 <= cols <= shape.key_tokens,
            heads >= 1,
    ;
    assert(shape.len(at) * heads <= shape.rows * heads && heads <= shape.rows * heads)
        by (nonlinear_arith)
        requires
            0 <= shape.len(at) <= shape.rows,
            shape.rows >= 1,
            heads >= 1,
    ;
    let score = shape.score_product(buffers, at, head)->GemmEx_0;
    let value = shape.value_product(buffers, at, head)->GemmEx_0;
    assert(steps@[head] == ComposedStep::Product(shape.score_product(buffers, at, head)));
    assert(steps@[shape.heads + 1 + head] == ComposedStep::Product(
        shape.value_product(buffers, at, head),
    ));
    let keys = matrix(memory, buffers.key.address + g * d * 4, 4, kv * d);
    let rows_of_head = matrix(memory, buffers.query.address + head * d * 4, 4, heads * d);
    let local = matrix(memory, buffers.query.address + (t0 * heads + head) * d * 4, 4, heads * d);
    lemma_call_is_product(score, memory, 0, 0, local, transposed(keys), i, key);
    assert forall|l: int| 0 <= l < d implies #[trigger] local(i, l) == rows_of_head(row, l) by {
        assert((t0 * heads + head) * d * 4 + (i * (heads * d) + l) * 4 == head * d * 4 + (row * (
        heads * d) + l) * 4) by (nonlinear_arith)
            requires
                row == t0 + i,
        ;
    }
    lemma_same_rows(local, rows_of_head, transposed(keys), d, i, row, key);
    lemma_call_is_product(
        value,
        memory,
        0,
        0,
        matrix(memory, buffers.scores.address + head * cols * 4, 4, heads * cols),
        matrix(memory, buffers.value.address + g * d * 4, 4, kv * d),
        i,
        column,
    );
    assert(head * cols * 4 + (i * (heads * cols) + key) * 4 == ((i * heads + head) * cols + key)
        * 4) by (nonlinear_arith);
    lemma_output_is_packed_at(t0, heads, head, d, i, column);
}

proof fn lemma_output_is_packed_at(t0: int, heads: int, head: int, d: int, i: int, column: int)
    ensures
        (t0 * heads + head) * d * 4 + (i * (heads * d) + column) * 4 == (((t0 + i) * heads + head)
            * d + column) * 4,
{
    assert((t0 * heads + head) * d * 4 + (i * (heads * d) + column) * 4 == (((t0 + i) * heads
        + head) * d + column) * 4) by (nonlinear_arith);
}

/// A plan names the tensors of its call, holds a 32-bit float for each of their elements
/// and a row of scores for each head and each row of the longest chunk, and its chunks
/// reach the last row.
pub proof fn lemma_composed_plan_names_its_operands(
    q: Tensor,
    k: Tensor,
    v: Tensor,
    key_tokens: usize,
    causal: bool,
    plan: ComposedPlan,
)
    requires
        call_ensures(composed_gqa_bf16, (&q, &k, &v, key_tokens, causal), plan),
        q.dims@.len() == 3,
        k.dims@.len() == 3,
        tensor_fits(q),
        composed_shape(q, k, key_tokens, causal).valid(),
    ensures
        plan.query == q.buffer.address,
        plan.key == k.buffer.address,
        plan.value == v.buffer.address,
        plan.shape.rows == q.dims@[0],
        plan.shape.heads == q.dims@[1],
        plan.shape.head_dim == q.dims@[2],
        plan.shape.kv_rows == k.dims@[0],
        plan.shape.kv_heads == k.dims@[1],
        plan.shape.key_tokens == key_tokens,
        plan.shape.causal == causal,
        plan.query_bytes == q.dims@[0] * q.dims@[1] * q.dims@[2] * 4,
        plan.key_bytes == k.dims@[0] * k.dims@[1] * q.dims@[2] * 4,
        plan.scores_bytes == q.dims@[1] * least(1024, q.dims@[0] as int) * key_tokens * 4,
        plan.output_bytes == tensor_size(q),
        1024 * (plan.chunks - 1) < q.dims@[0] <= 1024 * plan.chunks,
{
    let shape = composed_shape(q, k, key_tokens, causal);
    let least_rows = least(1024, shape.rows as int);
    assert(0 <= shape.rows * shape.heads * shape.head_dim) by (nonlinear_arith)
        requires
            shape.rows >= 0,
            shape.heads >= 0,
            shape.head_dim >= 0,
    ;
    assert(0 <= shape.kv_rows * shape.kv_heads * shape.head_dim) by (nonlinear_arith)
        requires
            shape.kv_rows >= 0,
            shape.kv_heads >= 0,
            shape.head_dim >= 0,
    ;
    assert(0 <= shape.heads * least_rows * shape.key_tokens) by (nonlinear_arith)
        requires
            shape.heads >= 0,
            least_rows >= 0,
            shape.key_tokens >= 0,
    ;
}

/// The casts before the chunks fill the query, key and value buffers from the operands of
/// the same name, and the cast behind them rounds the output into the result.
pub proof fn lemma_casts_keep_places(
    plan: ComposedPlan,
    buffers: ComposedBuffers,
    casts: Vec<Cast>,
    result: CudaBuffer,
    rounding: Cast,
)
    requires
        call_ensures(widen_operands, (&plan, &buffers), casts),
        call_ensures(round_output, (&plan, &buffers, &result), rounding),
    ensures
        casts@.len() == 3,
        casts@[0].source == plan.query && casts@[0].target == buffers.query.address,
        casts@[1].source == plan.key && casts@[1].target == buffers.key.address,
        casts@[2].source == plan.value && casts@[2].target == buffers.value.address,
        rounding.source == buffers.output.address && rounding.target == result.address,
{
}

} // verus!
