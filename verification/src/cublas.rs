//! cuBLAS calls for row-major matrices.

use crate::error::Error;
use crate::ffi::cublas::{cublasComputeType_t, cublasOperation_t, cudaDataType_t};
use crate::types::{CudaBuffer, DType};
use vstd::prelude::*;

verus! {

#[derive(Clone, Copy, Debug, PartialEq, Eq, Structural)]
pub enum CublasTranspose {
    /// The matrix as it is stored.
    Normal,
    Transpose,
}

pub open spec fn raw_operation(transpose: CublasTranspose) -> cublasOperation_t {
    match transpose {
        CublasTranspose::Normal => cublasOperation_t::CUBLAS_OP_N,
        CublasTranspose::Transpose => cublasOperation_t::CUBLAS_OP_T,
    }
}

impl CublasTranspose {
    pub fn raw(self) -> (operation: cublasOperation_t)
        ensures
            operation == raw_operation(self),
    {
        match self {
            CublasTranspose::Normal => cublasOperation_t::CUBLAS_OP_N,
            CublasTranspose::Transpose => cublasOperation_t::CUBLAS_OP_T,
        }
    }
}

/// A factor of a product: the bits of a 32-bit float, an integer, or one over
/// the square root of a number.
#[derive(Clone, Copy, Debug, PartialEq, Eq, Structural)]
pub enum Scalar {
    Real(u32),
    Integer(i32),
    InverseRoot(usize),
}

/// One stored operand: address, element type and leading dimension.
#[derive(Clone, Copy, Debug, PartialEq, Eq, Structural)]
pub struct Stored {
    pub address: usize,
    pub dtype: cudaDataType_t,
    pub ld: i32,
}

/// The arguments of `cublasGemmEx`, in its column-major terms:
/// `C = alpha * op(A) @ op(B) + beta * C` with `C` of `m` rows and `n` columns.
#[derive(Clone, Copy, Debug, PartialEq, Eq, Structural)]
pub struct GemmExCall {
    pub trans_a: cublasOperation_t,
    pub trans_b: cublasOperation_t,
    pub m: i32,
    pub n: i32,
    pub k: i32,
    pub alpha: Scalar,
    pub a: Stored,
    pub b: Stored,
    pub beta: Scalar,
    pub c: Stored,
    pub compute: cublasComputeType_t,
    pub algo: i32,
}

/// A `cublasGemmStridedBatchedEx` call: one product repeated with fixed
/// element strides.
#[derive(Clone, Copy, Debug, PartialEq, Eq, Structural)]
pub struct StridedBatch {
    pub gemm: GemmExCall,
    pub stride_a: i64,
    pub stride_b: i64,
    pub stride_c: i64,
    pub batch_count: i32,
}

/// One native cuBLAS call.
#[derive(Clone, Copy, Debug, PartialEq, Eq, Structural)]
pub enum CublasCall {
    /// `cublasSgemm_v2`.
    Sgemm(GemmExCall),
    /// `cublasGemmEx`.
    GemmEx(GemmExCall),
    /// `cublasGemmStridedBatchedEx`.
    StridedBatched(StridedBatch),
    /// `cublasGemmBatchedEx`; the addresses are those of pointer arrays.
    Batched { gemm: GemmExCall, batch_count: i32 },
}

pub const F8_TEXT: &'static str = "use kernels::gemm::fp8 for FP8 operands";

pub const INTEGER_TEXT: &'static str = "cuBLAS GEMM does not support integer tensors";

pub const INT8_TEXT: &'static str = "INT8 GEMM buffer is smaller than its matrix shape";

pub const STRIDE_TEXT: &'static str = "cuBLAS batch stride is not a whole number of elements";

/// A tensor-op algorithm fixed for every call, so that no call consults the
/// library's heuristic.
pub const FIXED_ALGO: i32 = 113;

pub open spec fn stored(buffer: CudaBuffer, dtype: cudaDataType_t, ld: i32) -> Stored {
    Stored { address: buffer.address, dtype, ld }
}

/// The column-major call for the row-major product
/// `C[m, n] = alpha * op(A) @ op(B) + beta * C`: the operands change places,
/// and so do the extents of the result.
pub open spec fn row_major(
    trans_a: cublasOperation_t,
    trans_b: cublasOperation_t,
    m: i32,
    n: i32,
    k: i32,
    alpha: Scalar,
    a: Stored,
    b: Stored,
    beta: Scalar,
    c: Stored,
    compute: cublasComputeType_t,
    algo: i32,
) -> GemmExCall {
    GemmExCall {
        trans_a: trans_b,
        trans_b: trans_a,
        m: n,
        n: m,
        k,
        alpha,
        a: b,
        b: a,
        beta,
        c,
        compute,
        algo,
    }
}

fn row_major_call(
    trans_a: cublasOperation_t,
    trans_b: cublasOperation_t,
    m: i32,
    n: i32,
    k: i32,
    alpha: Scalar,
    a: Stored,
    b: Stored,
    beta: Scalar,
    c: Stored,
    compute: cublasComputeType_t,
    algo: i32,
) -> (call: GemmExCall)
    ensures
        call == row_major(trans_a, trans_b, m, n, k, alpha, a, b, beta, c, compute, algo),
{
    GemmExCall {
        trans_a: trans_b,
        trans_b: trans_a,
        m: n,
        n: m,
        k,
        alpha,
        a: b,
        b: a,
        beta,
        c,
        compute,
        algo,
    }
}

fn operand(buffer: &CudaBuffer, dtype: cudaDataType_t, ld: i32) -> (result: Stored)
    ensures
        result == stored(*buffer, dtype, ld),
{
    Stored { address: buffer.address, dtype, ld }
}

/// How a floating-point element type is named in cuBLAS calls, or why a
/// product of that type is refused.
pub open spec fn floating_type(dtype: DType) -> Result<cudaDataType_t, Error> {
    match dtype {
        DType::F32 => Ok(cudaDataType_t::CUDA_R_32F),
        DType::F16 => Ok(cudaDataType_t::CUDA_R_16F),
        DType::BF16 => Ok(cudaDataType_t::CUDA_R_16BF),
        DType::F8E4M3 => Err(Error::Other(F8_TEXT)),
        DType::I32 | DType::I64 => Err(
            Error::UnsupportedDType { operation: INTEGER_TEXT, dtype },
        ),
    }
}

fn element_type(dtype: DType) -> (result: Result<cudaDataType_t, Error>)
    ensures
        result == floating_type(dtype),
{
    match dtype {
        DType::F32 => Ok(cudaDataType_t::CUDA_R_32F),
        DType::F16 => Ok(cudaDataType_t::CUDA_R_16F),
        DType::BF16 => Ok(cudaDataType_t::CUDA_R_16BF),
        DType::F8E4M3 => Err(Error::Other(F8_TEXT)),
        DType::I32 | DType::I64 => Err(
            Error::UnsupportedDType { operation: INTEGER_TEXT, dtype },
        ),
    }
}

/// The bytes of one element of a floating-point type.
pub open spec fn floating_size(dtype: DType) -> int {
    if dtype == DType::F32 {
        4
    } else {
        2
    }
}

/// Whether a number of bytes is a number of elements.
pub open spec fn whole(stride: i64, size: int) -> bool {
    stride as int % size == 0
}

/// Whether a batch of `count` can be laid out at `stride` bytes. A batch of one
/// uses no stride.
pub open spec fn strides(stride: i64, size: int, count: i32) -> bool {
    whole(stride, size) || count <= 1
}

/// The elements in `stride` bytes, or zero where that is no number of elements
/// and so not used.
pub open spec fn elements(stride: i64, size: int) -> i64 {
    if whole(stride, size) {
        (stride as int / size) as i64
    } else {
        0
    }
}

fn element_stride(stride: i64, dtype: DType, count: i32) -> (result: Result<i64, Error>)
    ensures
        result == (if strides(stride, floating_size(dtype), count) {
            Ok(elements(stride, floating_size(dtype)))
        } else {
            Err::<i64, Error>(Error::Other(STRIDE_TEXT))
        }),
{
    let size: i64 = if dtype == DType::F32 {
        4
    } else {
        2
    };
    if stride % size == 0 {
        Ok(stride / size)
    } else if count > 1 {
        Err(Error::Other(STRIDE_TEXT))
    } else {
        Ok(0)
    }
}

/// A stride that is handed to cuBLAS in elements lies at the same place as the
/// stride in bytes: matrix `b` of a batch starts `b * stride` bytes behind the
/// first.
pub proof fn lemma_batch_offset(stride: i64, dtype: DType, count: i32, b: int)
    requires
        strides(stride, floating_size(dtype), count),
        0 <= b < count,
    ensures
        (b * elements(stride, floating_size(dtype))) * floating_size(dtype) == b * stride,
{
    let size = floating_size(dtype);
    let step = elements(stride, size);
    if whole(stride, size) {
        assert(step * size == stride);
        assert((b * step) * size == b * (step * size)) by (nonlinear_arith);
    } else {
        assert(b == 0);
        assert((0 * step) * size == 0 && 0 * stride == 0) by (nonlinear_arith);
    }
}

/// The entry `(i, j)` of `op(X)` of a column-major matrix.
pub open spec fn column_entry(
    op: cublasOperation_t,
    memory: spec_fn(int) -> int,
    ld: int,
    i: int,
    j: int,
) -> int {
    match op {
        cublasOperation_t::CUBLAS_OP_N => memory(j * ld + i),
        cublasOperation_t::CUBLAS_OP_T => memory(i * ld + j),
    }
}

/// The entry `(i, j)` of `op(X)` of a row-major matrix.
pub open spec fn row_entry(
    op: cublasOperation_t,
    memory: spec_fn(int) -> int,
    ld: int,
    i: int,
    j: int,
) -> int {
    match op {
        cublasOperation_t::CUBLAS_OP_N => memory(i * ld + j),
        cublasOperation_t::CUBLAS_OP_T => memory(j * ld + i),
    }
}

/// The first `k` terms of the scalar product of `x` and `y`.
pub open spec fn dot(x: spec_fn(int) -> int, y: spec_fn(int) -> int, k: int) -> int
    decreases k,
{
    if k <= 0 {
        0
    } else {
        dot(x, y, k - 1) + x(k - 1) * y(k - 1)
    }
}

/// What the native call accumulates for the entry `(i, j)` of its result,
/// which it stores at `j * ldc + i`.
pub open spec fn column_product(
    call: GemmExCall,
    a: spec_fn(int) -> int,
    b: spec_fn(int) -> int,
    i: int,
    j: int,
) -> int {
    dot(
        |l: int| column_entry(call.trans_a, a, call.a.ld as int, i, l),
        |l: int| column_entry(call.trans_b, b, call.b.ld as int, l, j),
        call.k as int,
    )
}

/// The entry `(i, j)` of the row-major product, stored at `i * ldc + j`.
pub open spec fn row_product(
    trans_a: cublasOperation_t,
    trans_b: cublasOperation_t,
    k: int,
    a: spec_fn(int) -> int,
    lda: int,
    b: spec_fn(int) -> int,
    ldb: int,
    i: int,
    j: int,
) -> int {
    dot(
        |l: int| row_entry(trans_a, a, lda, i, l),
        |l: int| row_entry(trans_b, b, ldb, l, j),
        k,
    )
}

proof fn lemma_dot_swap(
    x: spec_fn(int) -> int,
    y: spec_fn(int) -> int,
    u: spec_fn(int) -> int,
    v: spec_fn(int) -> int,
    k: int,
)
    requires
        forall|l: int| #[trigger] x(l) == v(l),
        forall|l: int| #[trigger] y(l) == u(l),
    ensures
        dot(x, y, k) == dot(u, v, k),
    decreases k,
{
    if k > 0 {
        lemma_dot_swap(x, y, u, v, k - 1);
        let p = x(k - 1);
        let q = y(k - 1);
        assert(p * q == q * p) by (nonlinear_arith);
    }
}

/// The column-major call computes the row-major product: what it stores at
/// the place of the row-major entry `(i, j)` is that entry.
pub proof fn lemma_row_major_product(
    trans_a: cublasOperation_t,
    trans_b: cublasOperation_t,
    m: i32,
    n: i32,
    k: i32,
    alpha: Scalar,
    a: Stored,
    b: Stored,
    beta: Scalar,
    c: Stored,
    compute: cublasComputeType_t,
    algo: i32,
    memory_a: spec_fn(int) -> int,
    memory_b: spec_fn(int) -> int,
    i: int,
    j: int,
)
    ensures
        ({
            let call = row_major(trans_a, trans_b, m, n, k, alpha, a, b, beta, c, compute, algo);
            &&& call.m == n && call.n == m
            &&& column_product(call, memory_b, memory_a, j, i) == row_product(
                trans_a,
                trans_b,
                k as int,
                memory_a,
                a.ld as int,
                memory_b,
                b.ld as int,
                i,
                j,
            )
        }),
{
    let call = row_major(trans_a, trans_b, m, n, k, alpha, a, b, beta, c, compute, algo);
    lemma_dot_swap(
        |l: int| column_entry(call.trans_a, memory_b, call.a.ld as int, j, l),
        |l: int| column_entry(call.trans_b, memory_a, call.b.ld as int, l, i),
        |l: int| row_entry(trans_a, memory_a, a.ld as int, i, l),
        |l: int| row_entry(trans_b, memory_b, b.ld as int, l, j),
        k as int,
    );
}

/// A cuBLAS handle, as an opaque number.
#[derive(Debug)]
pub struct CublasHandle {
    pub handle: usize,
}

impl CublasHandle {
    /// Row-major `C = alpha * A @ B + beta * C` with dense `A[m, k]`,
    /// `B[k, n]` and `C[m, n]`.
    pub fn gemm(
        &self,
        dtype: DType,
        m: usize,
        n: usize,
        k: usize,
        alpha: u32,
        a: &CudaBuffer,
        b: &CudaBuffer,
        beta: u32,
        c: &CudaBuffer,
    ) -> (result: Result<CublasCall, Error>)
        ensures
            result == (match floating_type(dtype) {
                Err(error) => Err(error),
                Ok(element) => {
                    let call = row_major(
                        cublasOperation_t::CUBLAS_OP_N,
                        cublasOperation_t::CUBLAS_OP_N,
                        m as i32,
                        n as i32,
                        k as i32,
                        Scalar::Real(alpha),
                        stored(*a, element, k as i32),
                        stored(*b, element, n as i32),
                        Scalar::Real(beta),
                        stored(*c, element, n as i32),
                        cublasComputeType_t::CUBLAS_COMPUTE_32F,
                        FIXED_ALGO,
                    );
                    Ok::<CublasCall, Error>(
                        if dtype == DType::F32 {
                            CublasCall::Sgemm(call)
                        } else {
                            CublasCall::GemmEx(call)
                        },
                    )
                },
            }),
    {
        let element = match element_type(dtype) {
            Ok(element) => element,
            Err(error) => {
                return Err(error);
            },
        };
        let call = row_major_call(
            cublasOperation_t::CUBLAS_OP_N,
            cublasOperation_t::CUBLAS_OP_N,
            m as i32,
            n as i32,
            k as i32,
            Scalar::Real(alpha),
            operand(a, element, k as i32),
            operand(b, element, n as i32),
            Scalar::Real(beta),
            operand(c, element, n as i32),
            cublasComputeType_t::CUBLAS_COMPUTE_32F,
            FIXED_ALGO,
        );
        if dtype == DType::F32 {
            Ok(CublasCall::Sgemm(call))
        } else {
            Ok(CublasCall::GemmEx(call))
        }
    }

    /// `batch_count` independent row-major products `A[m, k] @ B[k, n]` at fixed
    /// strides. The strides are in bytes; the call's are in elements, and a
    /// stride that is no whole number of elements is refused where the batch has
    /// a second matrix to place.
    pub fn batched_gemm(
        &self,
        dtype: DType,
        m: usize,
        n: usize,
        k: usize,
        alpha: u32,
        a: &CudaBuffer,
        stride_a: i64,
        b: &CudaBuffer,
        stride_b: i64,
        beta: u32,
        c: &CudaBuffer,
        stride_c: i64,
        batch_count: i32,
    ) -> (result: Result<CublasCall, Error>)
        ensures
            result == (match floating_type(dtype) {
                Err(error) => Err(error),
                Ok(element) => if !strides(stride_a, floating_size(dtype), batch_count) || !strides(
                    stride_b,
                    floating_size(dtype),
                    batch_count,
                ) || !strides(stride_c, floating_size(dtype), batch_count) {
                    Err(Error::Other(STRIDE_TEXT))
                } else {
                    Ok::<CublasCall, Error>(
                        CublasCall::StridedBatched(
                            StridedBatch {
                                gemm: row_major(
                                    cublasOperation_t::CUBLAS_OP_N,
                                    cublasOperation_t::CUBLAS_OP_N,
                                    m as i32,
                                    n as i32,
                                    k as i32,
                                    Scalar::Real(alpha),
                                    stored(*a, element, k as i32),
                                    stored(*b, element, n as i32),
                                    Scalar::Real(beta),
                                    stored(*c, element, n as i32),
                                    cublasComputeType_t::CUBLAS_COMPUTE_32F,
                                    if dtype == DType::F32 {
                                        FIXED_ALGO
                                    } else {
                                        -1i32
                                    },
                                ),
                                stride_a: elements(stride_b, floating_size(dtype)),
                                stride_b: elements(stride_a, floating_size(dtype)),
                                stride_c: elements(stride_c, floating_size(dtype)),
                                batch_count,
                            },
                        ),
                    )
                },
            }),
    {
        let element = match element_type(dtype) {
            Ok(element) => element,
            Err(error) => {
                return Err(error);
            },
        };
        let row_a: i64 = element_stride(stride_a, dtype, batch_count)?;
        let row_b: i64 = element_stride(stride_b, dtype, batch_count)?;
        let row_c: i64 = element_stride(stride_c, dtype, batch_count)?;
        let gemm = row_major_call(
            cublasOperation_t::CUBLAS_OP_N,
            cublasOperation_t::CUBLAS_OP_N,
            m as i32,
            n as i32,
            k as i32,
            Scalar::Real(alpha),
            operand(a, element, k as i32),
            operand(b, element, n as i32),
            Scalar::Real(beta),
            operand(c, element, n as i32),
            cublasComputeType_t::CUBLAS_COMPUTE_32F,
            if dtype == DType::F32 {
                FIXED_ALGO
            } else {
                -1
            },
        );
        Ok(
            CublasCall::StridedBatched(
                StridedBatch {
                    gemm,
                    stride_a: row_b,
                    stride_b: row_a,
                    stride_c: row_c,
                    batch_count,
                },
            ),
        )
    }

    /// Row-major `C[m, n] = alpha * op(A) @ op(B) + beta * C` with explicit row
    /// strides.
    pub fn gemm_ex(
        &self,
        dtype: DType,
        transa: CublasTranspose,
        transb: CublasTranspose,
        m: usize,
        n: usize,
        k: usize,
        alpha: Scalar,
        a: &CudaBuffer,
        lda: i32,
        b: &CudaBuffer,
        ldb: i32,
        beta: Scalar,
        c: &CudaBuffer,
        ldc: i32,
    ) -> (result: Result<CublasCall, Error>)
        ensures
            result == (match floating_type(dtype) {
                Err(error) => Err(error),
                Ok(element) => Ok::<CublasCall, Error>(
                    CublasCall::GemmEx(
                        row_major(
                            raw_operation(transa),
                            raw_operation(transb),
                            m as i32,
                            n as i32,
                            k as i32,
                            alpha,
                            stored(*a, element, lda),
                            stored(*b, element, ldb),
                            beta,
                            stored(*c, element, ldc),
                            cublasComputeType_t::CUBLAS_COMPUTE_32F,
                            if dtype == DType::F32 {
                                99i32
                            } else {
                                -1i32
                            },
                        ),
                    ),
                ),
            }),
    {
        let element = match element_type(dtype) {
            Ok(element) => element,
            Err(error) => {
                return Err(error);
            },
        };
        Ok(
            CublasCall::GemmEx(
                row_major_call(
                    transa.raw(),
                    transb.raw(),
                    m as i32,
                    n as i32,
                    k as i32,
                    alpha,
                    operand(a, element, lda),
                    operand(b, element, ldb),
                    beta,
                    operand(c, element, ldc),
                    cublasComputeType_t::CUBLAS_COMPUTE_32F,
                    if dtype == DType::F32 {
                        99
                    } else {
                        -1
                    },
                ),
            ),
        )
    }

    pub fn raw(&self) -> (handle: usize)
        ensures
            handle == self.handle,
    {
        self.handle
    }

    /// Row-major INT8 product with INT32 accumulation: `activation[m, k]`
    /// times the transpose of `weight_output_major[n, k]`.
    pub fn gemm_int8_i32(
        &self,
        m: usize,
        n: usize,
        k: usize,
        activation: &CudaBuffer,
        weight_output_major: &CudaBuffer,
        output: &CudaBuffer,
    ) -> (result: Result<CublasCall, Error>)
        requires
            m * k <= usize::MAX,
            n * k <= usize::MAX,
            m * n * 4 <= usize::MAX,
        ensures
            result == (if activation.len < m * k || weight_output_major.len < n * k || output.len < m
                * n * 4 {
                Err(Error::Other(INT8_TEXT))
            } else {
                Ok::<CublasCall, Error>(
                    int8_call(m, n, k, *activation, *weight_output_major, *output),
                )
            }),
    {
        proof {
            assert(m * n <= m * n * 4) by (nonlinear_arith);
        }
        if activation.len < m * k || weight_output_major.len < n * k || output.len < m * n * 4 {
            return Err(Error::Other(INT8_TEXT));
        }
        Ok(
            CublasCall::GemmEx(
                row_major_call(
                    cublasOperation_t::CUBLAS_OP_N,
                    cublasOperation_t::CUBLAS_OP_T,
                    m as i32,
                    n as i32,
                    k as i32,
                    Scalar::Integer(1),
                    operand(activation, cudaDataType_t::CUDA_R_8I, k as i32),
                    operand(weight_output_major, cudaDataType_t::CUDA_R_8I, k as i32),
                    Scalar::Integer(0),
                    operand(output, cudaDataType_t::CUDA_R_32I, n as i32),
                    cublasComputeType_t::CUBLAS_COMPUTE_32I,
                    FIXED_ALGO,
                ),
            ),
        )
    }

    /// Attention scores of heads that share one key cache: row-major
    /// `C[b] = q[b] @ k_cache^T` with `q[b]` of `m` rows and rows of `C` that are
    /// `row_stride` elements apart. `stride_q` is in bytes, and is refused where
    /// it is no whole number of elements and the batch has a second matrix to
    /// place; `stride_c` is in elements, as `row_stride` is.
    pub fn batched_gemm_kt(
        &self,
        m: usize,
        n: usize,
        k: usize,
        alpha: u32,
        q: &CudaBuffer,
        stride_q: i64,
        k_cache: &CudaBuffer,
        beta: u32,
        c: &CudaBuffer,
        row_stride: i64,
        stride_c: i64,
        batch_count: i32,
    ) -> (result: Result<CublasCall, Error>)
        ensures
            result == (if !strides(stride_q, 2, batch_count) {
                Err(Error::Other(STRIDE_TEXT))
            } else {
                Ok::<CublasCall, Error>(
                    CublasCall::StridedBatched(
                        StridedBatch {
                            gemm: row_major(
                                cublasOperation_t::CUBLAS_OP_N,
                                cublasOperation_t::CUBLAS_OP_T,
                                m as i32,
                                n as i32,
                                k as i32,
                                Scalar::Real(alpha),
                                stored(*q, cudaDataType_t::CUDA_R_16BF, k as i32),
                                stored(*k_cache, cudaDataType_t::CUDA_R_16BF, k as i32),
                                Scalar::Real(beta),
                                stored(*c, cudaDataType_t::CUDA_R_16BF, row_stride as i32),
                                cublasComputeType_t::CUBLAS_COMPUTE_32F,
                                FIXED_ALGO,
                            ),
                            stride_a: 0,
                            stride_b: elements(stride_q, 2),
                            stride_c,
                            batch_count,
                        },
                    ),
                )
            }),
    {
        let row_q: i64 = element_stride(stride_q, DType::BF16, batch_count)?;
        let gemm = row_major_call(
            cublasOperation_t::CUBLAS_OP_N,
            cublasOperation_t::CUBLAS_OP_T,
            m as i32,
            n as i32,
            k as i32,
            Scalar::Real(alpha),
            operand(q, cudaDataType_t::CUDA_R_16BF, k as i32),
            operand(k_cache, cudaDataType_t::CUDA_R_16BF, k as i32),
            Scalar::Real(beta),
            operand(c, cudaDataType_t::CUDA_R_16BF, row_stride as i32),
            cublasComputeType_t::CUBLAS_COMPUTE_32F,
            FIXED_ALGO,
        );
        Ok(
            CublasCall::StridedBatched(
                StridedBatch { gemm, stride_a: 0, stride_b: row_q, stride_c, batch_count },
            ),
        )
    }

    /// Attention output of heads that share one value cache: row-major
    /// `C[b] = p[b] @ v` with rows of `p` that are `row_stride` apart. All strides
    /// are in elements.
    pub fn batched_gemm_pv(
        &self,
        m: usize,
        n: usize,
        k: usize,
        alpha: u32,
        p: &CudaBuffer,
        row_stride: i64,
        stride_p: i64,
        v: &CudaBuffer,
        beta: u32,
        c: &CudaBuffer,
        stride_c: i64,
        batch_count: i32,
    ) -> (call: CublasCall)
        ensures
            call == CublasCall::StridedBatched(
                StridedBatch {
                    gemm: row_major(
                        cublasOperation_t::CUBLAS_OP_N,
                        cublasOperation_t::CUBLAS_OP_N,
                        m as i32,
                        n as i32,
                        k as i32,
                        Scalar::Real(alpha),
                        stored(*p, cudaDataType_t::CUDA_R_16BF, row_stride as i32),
                        stored(*v, cudaDataType_t::CUDA_R_16BF, n as i32),
                        Scalar::Real(beta),
                        stored(*c, cudaDataType_t::CUDA_R_16BF, n as i32),
                        cublasComputeType_t::CUBLAS_COMPUTE_32F,
                        FIXED_ALGO,
                    ),
                    stride_a: 0,
                    stride_b: stride_p,
                    stride_c,
                    batch_count,
                },
            ),
    {
        let gemm = row_major_call(
            cublasOperation_t::CUBLAS_OP_N,
            cublasOperation_t::CUBLAS_OP_N,
            m as i32,
            n as i32,
            k as i32,
            Scalar::Real(alpha),
            operand(p, cudaDataType_t::CUDA_R_16BF, row_stride as i32),
            operand(v, cudaDataType_t::CUDA_R_16BF, n as i32),
            Scalar::Real(beta),
            operand(c, cudaDataType_t::CUDA_R_16BF, n as i32),
            cublasComputeType_t::CUBLAS_COMPUTE_32F,
            FIXED_ALGO,
        );
        CublasCall::StridedBatched(
            StridedBatch { gemm, stride_a: 0, stride_b: stride_p, stride_c, batch_count },
        )
    }

    /// Pointer-array batched product in column-major terms: the caller has
    /// already changed the operands' places.
    pub fn gemm_batched_ex(
        &self,
        trans_a: cublasOperation_t,
        trans_b: cublasOperation_t,
        m: usize,
        n: usize,
        k: usize,
        alpha: u32,
        a_ptrs: &CudaBuffer,
        lda: i32,
        b_ptrs: &CudaBuffer,
        ldb: i32,
        beta: u32,
        c_ptrs: &CudaBuffer,
        ldc: i32,
        batch_count: i32,
    ) -> (call: CublasCall)
        ensures
            call == (CublasCall::Batched {
                gemm: GemmExCall {
                    trans_a,
                    trans_b,
                    m: m as i32,
                    n: n as i32,
                    k: k as i32,
                    alpha: Scalar::Real(alpha),
                    a: stored(*a_ptrs, cudaDataType_t::CUDA_R_16BF, lda),
                    b: stored(*b_ptrs, cudaDataType_t::CUDA_R_16BF, ldb),
                    beta: Scalar::Real(beta),
                    c: stored(*c_ptrs, cudaDataType_t::CUDA_R_16BF, ldc),
                    compute: cublasComputeType_t::CUBLAS_COMPUTE_32F,
                    algo: FIXED_ALGO,
                },
                batch_count,
            }),
    {
        CublasCall::Batched {
            gemm: GemmExCall {
                trans_a,
                trans_b,
                m: m as i32,
                n: n as i32,
                k: k as i32,
                alpha: Scalar::Real(alpha),
                a: operand(a_ptrs, cudaDataType_t::CUDA_R_16BF, lda),
                b: operand(b_ptrs, cudaDataType_t::CUDA_R_16BF, ldb),
                beta: Scalar::Real(beta),
                c: operand(c_ptrs, cudaDataType_t::CUDA_R_16BF, ldc),
                compute: cublasComputeType_t::CUBLAS_COMPUTE_32F,
                algo: FIXED_ALGO,
            },
            batch_count,
        }
    }

    /// BF16 product with rows of `A` that are `lda` elements apart.
    pub fn gemm_ld(
        &self,
        m: usize,
        n: usize,
        k: usize,
        alpha: u32,
        a: &CudaBuffer,
        lda: i32,
        b: &CudaBuffer,
        beta: u32,
        c: &CudaBuffer,
        ldc: i32,
    ) -> (call: CublasCall)
        ensures
            call == strided_call(
                cudaDataType_t::CUDA_R_16BF,
                cudaDataType_t::CUDA_R_16BF,
                cudaDataType_t::CUDA_R_16BF,
                m,
                n,
                k,
                alpha,
                *a,
                lda,
                *b,
                beta,
                *c,
                ldc,
            ),
    {
        strided(
            cudaDataType_t::CUDA_R_16BF,
            cudaDataType_t::CUDA_R_16BF,
            cudaDataType_t::CUDA_R_16BF,
            m,
            n,
            k,
            alpha,
            a,
            lda,
            b,
            beta,
            c,
            ldc,
        )
    }

    /// BF16 operands, F32 result.
    pub fn gemm_bf16_f32(
        &self,
        m: usize,
        n: usize,
        k: usize,
        alpha: u32,
        a: &CudaBuffer,
        lda: i32,
        b: &CudaBuffer,
        beta: u32,
        c: &CudaBuffer,
        ldc: i32,
    ) -> (call: CublasCall)
        ensures
            call == strided_call(
                cudaDataType_t::CUDA_R_16BF,
                cudaDataType_t::CUDA_R_16BF,
                cudaDataType_t::CUDA_R_32F,
                m,
                n,
                k,
                alpha,
                *a,
                lda,
                *b,
                beta,
                *c,
                ldc,
            ),
    {
        strided(
            cudaDataType_t::CUDA_R_16BF,
            cudaDataType_t::CUDA_R_16BF,
            cudaDataType_t::CUDA_R_32F,
            m,
            n,
            k,
            alpha,
            a,
            lda,
            b,
            beta,
            c,
            ldc,
        )
    }

    /// BF16 operands and an F32 result, with transposition and explicit row
    /// strides.
    pub fn gemm_bf16_f32_ex(
        &self,
        transa: CublasTranspose,
        transb: CublasTranspose,
        m: usize,
        n: usize,
        k: usize,
        alpha: Scalar,
        a: &CudaBuffer,
        lda: i32,
        b: &CudaBuffer,
        ldb: i32,
        beta: Scalar,
        c: &CudaBuffer,
        ldc: i32,
    ) -> (call: CublasCall)
        ensures
            call == CublasCall::GemmEx(
                row_major(
                    raw_operation(transa),
                    raw_operation(transb),
                    m as i32,
                    n as i32,
                    k as i32,
                    alpha,
                    stored(*a, cudaDataType_t::CUDA_R_16BF, lda),
                    stored(*b, cudaDataType_t::CUDA_R_16BF, ldb),
                    beta,
                    stored(*c, cudaDataType_t::CUDA_R_32F, ldc),
                    cublasComputeType_t::CUBLAS_COMPUTE_32F,
                    FIXED_ALGO,
                ),
            ),
    {
        CublasCall::GemmEx(
            row_major_call(
                transa.raw(),
                transb.raw(),
                m as i32,
                n as i32,
                k as i32,
                alpha,
                operand(a, cudaDataType_t::CUDA_R_16BF, lda),
                operand(b, cudaDataType_t::CUDA_R_16BF, ldb),
                beta,
                operand(c, cudaDataType_t::CUDA_R_32F, ldc),
                cublasComputeType_t::CUBLAS_COMPUTE_32F,
                FIXED_ALGO,
            ),
        )
    }

    /// F32 `A`, BF16 `B`, F32 result.
    pub fn gemm_f32_bf16(
        &self,
        m: usize,
        n: usize,
        k: usize,
        alpha: u32,
        a: &CudaBuffer,
        lda: i32,
        b: &CudaBuffer,
        beta: u32,
        c: &CudaBuffer,
        ldc: i32,
    ) -> (call: CublasCall)
        ensures
            call == strided_call(
                cudaDataType_t::CUDA_R_32F,
                cudaDataType_t::CUDA_R_16BF,
                cudaDataType_t::CUDA_R_32F,
                m,
                n,
                k,
                alpha,
                *a,
                lda,
                *b,
                beta,
                *c,
                ldc,
            ),
    {
        strided(
            cudaDataType_t::CUDA_R_32F,
            cudaDataType_t::CUDA_R_16BF,
            cudaDataType_t::CUDA_R_32F,
            m,
            n,
            k,
            alpha,
            a,
            lda,
            b,
            beta,
            c,
            ldc,
        )
    }

    /// F32 operands and result.
    pub fn gemm_ld_f32(
        &self,
        m: usize,
        n: usize,
        k: usize,
        alpha: u32,
        a: &CudaBuffer,
        lda: i32,
        b: &CudaBuffer,
        beta: u32,
        c: &CudaBuffer,
        ldc: i32,
    ) -> (call: CublasCall)
        ensures
            call == strided_call(
                cudaDataType_t::CUDA_R_32F,
                cudaDataType_t::CUDA_R_32F,
                cudaDataType_t::CUDA_R_32F,
                m,
                n,
                k,
                alpha,
                *a,
                lda,
                *b,
                beta,
                *c,
                ldc,
            ),
    {
        strided(
            cudaDataType_t::CUDA_R_32F,
            cudaDataType_t::CUDA_R_32F,
            cudaDataType_t::CUDA_R_32F,
            m,
            n,
            k,
            alpha,
            a,
            lda,
            b,
            beta,
            c,
            ldc,
        )
    }
}

pub open spec fn int8_call(
    m: usize,
    n: usize,
    k: usize,
    activation: CudaBuffer,
    weight_output_major: CudaBuffer,
    output: CudaBuffer,
) -> CublasCall {
    CublasCall::GemmEx(
        row_major(
            cublasOperation_t::CUBLAS_OP_N,
            cublasOperation_t::CUBLAS_OP_T,
            m as i32,
            n as i32,
            k as i32,
            Scalar::Integer(1),
            stored(activation, cudaDataType_t::CUDA_R_8I, k as i32),
            stored(weight_output_major, cudaDataType_t::CUDA_R_8I, k as i32),
            Scalar::Integer(0),
            stored(output, cudaDataType_t::CUDA_R_32I, n as i32),
            cublasComputeType_t::CUBLAS_COMPUTE_32I,
            FIXED_ALGO,
        ),
    )
}

/// `C[m, n] = alpha * A[m, k] @ B[k, n] + beta * C` with a dense `B`.
pub open spec fn strided_call(
    a_type: cudaDataType_t,
    b_type: cudaDataType_t,
    c_type: cudaDataType_t,
    m: usize,
    n: usize,
    k: usize,
    alpha: u32,
    a: CudaBuffer,
    lda: i32,
    b: CudaBuffer,
    beta: u32,
    c: CudaBuffer,
    ldc: i32,
) -> CublasCall {
    CublasCall::GemmEx(
        row_major(
            cublasOperation_t::CUBLAS_OP_N,
            cublasOperation_t::CUBLAS_OP_N,
            m as i32,
            n as i32,
            k as i32,
            Scalar::Real(alpha),
            stored(a, a_type, lda),
            stored(b, b_type, n as i32),
            Scalar::Real(beta),
            stored(c, c_type, ldc),
            cublasComputeType_t::CUBLAS_COMPUTE_32F,
            FIXED_ALGO,
        ),
    )
}

fn strided(
    a_type: cudaDataType_t,
    b_type: cudaDataType_t,
    c_type: cudaDataType_t,
    m: usize,
    n: usize,
    k: usize,
    alpha: u32,
    a: &CudaBuffer,
    lda: i32,
    b: &CudaBuffer,
    beta: u32,
    c: &CudaBuffer,
    ldc: i32,
) -> (call: CublasCall)
    ensures
        call == strided_call(a_type, b_type, c_type, m, n, k, alpha, *a, lda, *b, beta, *c, ldc),
{
    CublasCall::GemmEx(
        row_major_call(
            cublasOperation_t::CUBLAS_OP_N,
            cublasOperation_t::CUBLAS_OP_N,
            m as i32,
            n as i32,
            k as i32,
            Scalar::Real(alpha),
            operand(a, a_type, lda),
            operand(b, b_type, n as i32),
            Scalar::Real(beta),
            operand(c, c_type, ldc),
            cublasComputeType_t::CUBLAS_COMPUTE_32F,
            FIXED_ALGO,
        ),
    )
}

} // verus!
