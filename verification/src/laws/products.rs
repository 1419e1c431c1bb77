//! Matrix products by cuBLAS.

use super::memory::element;
use crate::cublas::{
    column_entry, column_product, dot, CublasCall, CublasHandle, CublasTranspose, GemmExCall,
    Scalar,
};
use crate::error::Error;
use crate::ffi::cublas::{cublasComputeType_t, cublasOperation_t, cudaDataType_t};
use crate::types::{CudaBuffer, DType};
use vstd::prelude::*;

verus! {

/// The bytes of one stored element.
pub open spec fn stored_width(dtype: cudaDataType_t) -> int {
    match dtype {
        cudaDataType_t::CUDA_R_8I => 1,
        cudaDataType_t::CUDA_R_16F => 2,
        cudaDataType_t::CUDA_R_16BF => 2,
        cudaDataType_t::CUDA_R_32F => 4,
        cudaDataType_t::CUDA_R_32I => 4,
    }
}

/// A row-major matrix whose rows are `ld` elements apart.
pub open spec fn matrix(
    memory: spec_fn(int) -> int,
    address: int,
    width: int,
    ld: int,
) -> spec_fn(int, int) -> int {
    |i: int, j: int| element(memory, address, width, i * ld + j)
}

pub open spec fn transposed(x: spec_fn(int, int) -> int) -> spec_fn(int, int) -> int {
    |i: int, j: int| x(j, i)
}

/// A matrix, or its transpose.
pub open spec fn turned(
    turn: CublasTranspose,
    x: spec_fn(int, int) -> int,
) -> spec_fn(int, int) -> int {
    match turn {
        CublasTranspose::Normal => x,
        CublasTranspose::Transpose => transposed(x),
    }
}

/// The entry `(i, j)` of the product of two matrices.
pub open spec fn product_entry(
    x: spec_fn(int, int) -> int,
    y: spec_fn(int, int) -> int,
    k: int,
    i: int,
    j: int,
) -> int {
    dot(|l: int| x(i, l), |l: int| y(l, j), k)
}

/// What a call accumulates for the entry `(i, j)` of its row-major result, where
/// its operands start `offset_a` and `offset_b` elements behind their addresses.
pub open spec fn launched_entry(
    call: GemmExCall,
    memory: spec_fn(int) -> int,
    offset_a: int,
    offset_b: int,
    i: int,
    j: int,
) -> int {
    column_product(
        call,
        |x: int| element(memory, call.a.address as int, stored_width(call.a.dtype), offset_a + x),
        |x: int| element(memory, call.b.address as int, stored_width(call.b.dtype), offset_b + x),
        j,
        i,
    )
}

/// The address at which a call stores the entry `(i, j)` of its row-major result.
pub open spec fn launched_address(call: GemmExCall, offset_c: int, i: int, j: int) -> int {
    call.c.address + (offset_c + i * call.c.ld + j) * stored_width(call.c.dtype)
}

/// A call computes a row-major `m` by `n` product over `k` terms.
pub open spec fn has_extents(call: GemmExCall, m: int, n: int, k: int) -> bool {
    call.n == m && call.m == n && call.k == k
}

proof fn lemma_dot_turned(
    x: spec_fn(int) -> int,
    y: spec_fn(int) -> int,
    u: spec_fn(int) -> int,
    v: spec_fn(int) -> int,
    k: int,
)
    requires
        forall|l: int| 0 <= l < k ==> #[trigger] x(l) == v(l),
        forall|l: int| 0 <= l < k ==> #[trigger] y(l) == u(l),
    ensures
        dot(x, y, k) == dot(u, v, k),
    decreases k,
{
    if k > 0 {
        lemma_dot_turned(x, y, u, v, k - 1);
        let p = x(k - 1);
        let q = y(k - 1);
        assert(p * q == q * p) by (nonlinear_arith);
    }
}

/// A call whose second operand reads `x` and whose first reads `y` accumulates
/// their product.
pub proof fn lemma_call_is_product(
    call: GemmExCall,
    memory: spec_fn(int) -> int,
    offset_a: int,
    offset_b: int,
    x: spec_fn(int, int) -> int,
    y: spec_fn(int, int) -> int,
    i: int,
    j: int,
)
    requires
        forall|l: int|
            0 <= l < call.k ==> #[trigger] x(i, l) == column_entry(
                call.trans_b,
                |e: int|
                    element(
                        memory,
                        call.b.address as int,
                        stored_width(call.b.dtype),
                        offset_b + e,
                    ),
                call.b.ld as int,
                l,
                i,
            ),
        forall|l: int|
            0 <= l < call.k ==> #[trigger] y(l, j) == column_entry(
                call.trans_a,
                |e: int|
                    element(
                        memory,
                        call.a.address as int,
                        stored_width(call.a.dtype),
                        offset_a + e,
                    ),
                call.a.ld as int,
                j,
                l,
            ),
    ensures
        launched_entry(call, memory, offset_a, offset_b, i, j) == product_entry(
            x,
            y,
            call.k as int,
            i,
            j,
        ),
{
    let a = |e: int|
        element(memory, call.a.address as int, stored_width(call.a.dtype), offset_a + e);
    let b = |e: int|
        element(memory, call.b.address as int, stored_width(call.b.dtype), offset_b + e);
    let p = |l: int| column_entry(call.trans_a, a, call.a.ld as int, j, l);
    let q = |l: int| column_entry(call.trans_b, b, call.b.ld as int, l, i);
    let u = |l: int| x(i, l);
    let v = |l: int| y(l, j);
    assert forall|l: int| 0 <= l < call.k implies #[trigger] p(l) == v(l) by {
        assert(y(l, j) == column_entry(call.trans_a, a, call.a.ld as int, j, l));
    }
    assert forall|l: int| 0 <= l < call.k implies #[trigger] q(l) == u(l) by {
        assert(x(i, l) == column_entry(call.trans_b, b, call.b.ld as int, l, i));
    }
    lemma_dot_turned(p, q, u, v, call.k as int);
}

/// Factors of the terms are factors of the sum.
pub proof fn lemma_product_scales(
    x: spec_fn(int, int) -> int,
    y: spec_fn(int, int) -> int,
    u: spec_fn(int, int) -> int,
    v: spec_fn(int, int) -> int,
    p: int,
    q: int,
    k: int,
    i: int,
    j: int,
)
    requires
        forall|l: int| 0 <= l < k ==> #[trigger] u(i, l) == p * x(i, l),
        forall|l: int| 0 <= l < k ==> #[trigger] v(l, j) == q * y(l, j),
    ensures
        product_entry(u, v, k, i, j) == p * q * product_entry(x, y, k, i, j),
{
    lemma_dot_scales(
        |l: int| x(i, l),
        |l: int| y(l, j),
        |l: int| u(i, l),
        |l: int| v(l, j),
        p,
        q,
        k,
    );
}

proof fn lemma_dot_scales(
    x: spec_fn(int) -> int,
    y: spec_fn(int) -> int,
    u: spec_fn(int) -> int,
    v: spec_fn(int) -> int,
    p: int,
    q: int,
    k: int,
)
    requires
        forall|l: int| 0 <= l < k ==> #[trigger] u(l) == p * x(l),
        forall|l: int| 0 <= l < k ==> #[trigger] v(l) == q * y(l),
    ensures
        dot(u, v, k) == p * q * dot(x, y, k),
    decreases k,
{
    if k > 0 {
        lemma_dot_scales(x, y, u, v, p, q, k - 1);
        let a = x(k - 1);
        let b = y(k - 1);
        let d = dot(x, y, k - 1);
        assert(u(k - 1) == p * a && v(k - 1) == q * b);
        assert(p * q * d + (p * a) * (q * b) == p * q * (d + a * b)) by (nonlinear_arith);
    } else {
        assert(p * q * 0 == 0) by (nonlinear_arith);
    }
}

/// Equal rows have equal products.
pub proof fn lemma_same_rows(
    x: spec_fn(int, int) -> int,
    u: spec_fn(int, int) -> int,
    y: spec_fn(int, int) -> int,
    k: int,
    i: int,
    row: int,
    j: int,
)
    requires
        forall|l: int| 0 <= l < k ==> #[trigger] x(i, l) == u(row, l),
    ensures
        product_entry(x, y, k, i, j) == product_entry(u, y, k, row, j),
{
    lemma_dot_same(|l: int| x(i, l), |l: int| u(row, l), |l: int| y(l, j), k);
}

proof fn lemma_dot_same(
    x: spec_fn(int) -> int,
    u: spec_fn(int) -> int,
    y: spec_fn(int) -> int,
    k: int,
)
    requires
        forall|l: int| 0 <= l < k ==> #[trigger] x(l) == u(l),
    ensures
        dot(x, y, k) == dot(u, y, k),
    decreases k,
{
    if k > 0 {
        lemma_dot_same(x, u, y, k - 1);
        assert(x(k - 1) == u(k - 1));
    }
}

/// The bytes of one element of a floating-point type.
pub open spec fn real_width(dtype: DType) -> int {
    if dtype == DType::F32 {
        4
    } else {
        2
    }
}

/// Types that cuBLAS multiplies.
pub open spec fn is_real(dtype: DType) -> bool {
    dtype == DType::F32 || dtype == DType::F16 || dtype == DType::BF16
}

/// A dense product `C[m, n] = alpha * A[m, k] @ B[k, n] + beta * C`.
pub proof fn lemma_gemm_is_product(
    handle: CublasHandle,
    dtype: DType,
    m: usize,
    n: usize,
    k: usize,
    alpha: u32,
    a: CudaBuffer,
    b: CudaBuffer,
    beta: u32,
    c: CudaBuffer,
    result: Result<CublasCall, Error>,
    memory: spec_fn(int) -> int,
    i: int,
    j: int,
)
    requires
        call_ensures(CublasHandle::gemm, (&handle, dtype, m, n, k, alpha, &a, &b, beta, &c), result),
        m <= i32::MAX,
        n <= i32::MAX,
        k <= i32::MAX,
    ensures
        result is Ok <==> is_real(dtype),
        result matches Ok(call) ==> {
            let gemm = if dtype == DType::F32 {
                call->Sgemm_0
            } else {
                call->GemmEx_0
            };
            let width = real_width(dtype);
            &&& dtype == DType::F32 <==> call is Sgemm
            &&& dtype != DType::F32 <==> call is GemmEx
            &&& has_extents(gemm, m as int, n as int, k as int)
            &&& gemm.alpha == Scalar::Real(alpha) && gemm.beta == Scalar::Real(beta)
            &&& launched_entry(gemm, memory, 0, 0, i, j) == product_entry(
                matrix(memory, a.address as int, width, k as int),
                matrix(memory, b.address as int, width, n as int),
                k as int,
                i,
                j,
            )
            &&& launched_address(gemm, 0, i, j) == c.address + (i * n + j) * width
            &&& gemm.compute == cublasComputeType_t::CUBLAS_COMPUTE_32F
        },
{
    if let Ok(call) = result {
        let gemm = if dtype == DType::F32 {
            call->Sgemm_0
        } else {
            call->GemmEx_0
        };
        let width = real_width(dtype);
        lemma_call_is_product(
            gemm,
            memory,
            0,
            0,
            matrix(memory, a.address as int, width, k as int),
            matrix(memory, b.address as int, width, n as int),
            i,
            j,
        );
    }
}

/// A product with transposition and explicit row strides.
pub proof fn lemma_gemm_ex_is_product(
    handle: CublasHandle,
    dtype: DType,
    transa: CublasTranspose,
    transb: CublasTranspose,
    m: usize,
    n: usize,
    k: usize,
    alpha: Scalar,
    a: CudaBuffer,
    lda: i32,
    b: CudaBuffer,
    ldb: i32,
    beta: Scalar,
    c: CudaBuffer,
    ldc: i32,
    result: Result<CublasCall, Error>,
    memory: spec_fn(int) -> int,
    i: int,
    j: int,
)
    requires
        call_ensures(
            CublasHandle::gemm_ex,
            (&handle, dtype, transa, transb, m, n, k, alpha, &a, lda, &b, ldb, beta, &c, ldc),
            result,
        ),
        m <= i32::MAX,
        n <= i32::MAX,
        k <= i32::MAX,
    ensures
        result is Ok <==> is_real(dtype),
        result matches Ok(call) ==> {
            let gemm = call->GemmEx_0;
            let width = real_width(dtype);
            &&& call is GemmEx
            &&& has_extents(gemm, m as int, n as int, k as int)
            &&& gemm.alpha == alpha && gemm.beta == beta
            &&& launched_entry(gemm, memory, 0, 0, i, j) == product_entry(
                turned(transa, matrix(memory, a.address as int, width, lda as int)),
                turned(transb, matrix(memory, b.address as int, width, ldb as int)),
                k as int,
                i,
                j,
            )
            &&& launched_address(gemm, 0, i, j) == c.address + (i * ldc + j) * width
            &&& gemm.compute == cublasComputeType_t::CUBLAS_COMPUTE_32F
        },
{
    if let Ok(call) = result {
        let width = real_width(dtype);
        lemma_call_is_product(
            call->GemmEx_0,
            memory,
            0,
            0,
            turned(transa, matrix(memory, a.address as int, width, lda as int)),
            turned(transb, matrix(memory, b.address as int, width, ldb as int)),
            i,
            j,
        );
    }
}

/// The integer product of rows with an output-major weight:
/// `output[i, j] = sum_l activation[i, l] * weight[j, l]`.
pub proof fn lemma_int8_is_product(
    handle: CublasHandle,
    m: usize,
    n: usize,
    k: usize,
    activation: CudaBuffer,
    weight: CudaBuffer,
    output: CudaBuffer,
    result: Result<CublasCall, Error>,
    memory: spec_fn(int) -> int,
    i: int,
    j: int,
)
    requires
        call_ensures(
            CublasHandle::gemm_int8_i32,
            (&handle, m, n, k, &activation, &weight, &output),
            result,
        ),
        m <= i32::MAX,
        n <= i32::MAX,
        k <= i32::MAX,
    ensures
        result is Ok <==> m * k <= activation.len && n * k <= weight.len && m * n * 4 <= output.len,
        result matches Ok(call) ==> is_int8_product(
            call,
            m as int,
            n as int,
            k as int,
            activation.address as int,
            weight.address as int,
            output.address as int,
            memory,
            i,
            j,
        ),
{
    if let Ok(call) = result {
        lemma_call_is_product(
            call->GemmEx_0,
            memory,
            0,
            0,
            matrix(memory, activation.address as int, 1, k as int),
            transposed(matrix(memory, weight.address as int, 1, k as int)),
            i,
            j,
        );
    }
}

/// A call stores `sum_l activation[i, l] * weight[j, l]` at `output[i, j]`.
pub open spec fn is_int8_product(
    call: CublasCall,
    m: int,
    n: int,
    k: int,
    activation: int,
    weight: int,
    output: int,
    memory: spec_fn(int) -> int,
    i: int,
    j: int,
) -> bool {
    let gemm = call->GemmEx_0;
    &&& call is GemmEx
    &&& has_extents(gemm, m, n, k)
    &&& gemm.alpha == Scalar::Integer(1) && gemm.beta == Scalar::Integer(0)
    &&& launched_entry(gemm, memory, 0, 0, i, j) == product_entry(
        matrix(memory, activation, 1, k),
        transposed(matrix(memory, weight, 1, k)),
        k,
        i,
        j,
    )
    &&& launched_address(gemm, 0, i, j) == output + (i * n + j) * 4
    &&& gemm.compute == cublasComputeType_t::CUBLAS_COMPUTE_32I
}

/// A batch of dense products: matrix `batch` of each operand starts `batch` strides
/// of bytes behind the first.
pub proof fn lemma_batched_gemm_is_product(
    handle: CublasHandle,
    dtype: DType,
    m: usize,
    n: usize,
    k: usize,
    alpha: u32,
    a: CudaBuffer,
    stride_a: i64,
    b: CudaBuffer,
    stride_b: i64,
    beta: u32,
    c: CudaBuffer,
    stride_c: i64,
    batch_count: i32,
    result: Result<CublasCall, Error>,
    memory: spec_fn(int) -> int,
    batch: int,
    i: int,
    j: int,
)
    requires
        call_ensures(
            CublasHandle::batched_gemm,
            (
                &handle,
                dtype,
                m,
                n,
                k,
                alpha,
                &a,
                stride_a,
                &b,
                stride_b,
                beta,
                &c,
                stride_c,
                batch_count,
            ),
            result,
        ),
        m <= i32::MAX,
        n <= i32::MAX,
        k <= i32::MAX,
        0 <= batch < batch_count,
    ensures
        result is Ok <==> is_real(dtype) && (batch_count <= 1 || (stride_a as int % real_width(dtype)
            == 0 && stride_b as int % real_width(dtype) == 0 && stride_c as int % real_width(dtype)
            == 0)),
        result matches Ok(call) ==> {
            let width = real_width(dtype);
            let strided = call->StridedBatched_0;
            &&& call is StridedBatched
            &&& strided.batch_count == batch_count
            &&& has_extents(strided.gemm, m as int, n as int, k as int)
            &&& strided.gemm.alpha == Scalar::Real(alpha) && strided.gemm.beta == Scalar::Real(beta)
            &&& launched_entry(
                strided.gemm,
                memory,
                batch * strided.stride_a,
                batch * strided.stride_b,
                i,
                j,
            ) == product_entry(
                matrix(memory, a.address + batch * stride_a, width, k as int),
                matrix(memory, b.address + batch * stride_b, width, n as int),
                k as int,
                i,
                j,
            )
            &&& launched_address(strided.gemm, batch * strided.stride_c, i, j) == c.address + batch
                * stride_c + (i * n + j) * width
        },
{
    if let Ok(call) = result {
        let width = real_width(dtype);
        let strided = call->StridedBatched_0;
        crate::cublas::lemma_batch_offset(stride_a, dtype, batch_count, batch);
        crate::cublas::lemma_batch_offset(stride_b, dtype, batch_count, batch);
        crate::cublas::lemma_batch_offset(stride_c, dtype, batch_count, batch);
        let x = matrix(memory, a.address + batch * stride_a, width, k as int);
        let y = matrix(memory, b.address + batch * stride_b, width, n as int);
        lemma_shift(a.address as int, batch * stride_a, width, batch * strided.stride_b);
        lemma_shift(b.address as int, batch * stride_b, width, batch * strided.stride_a);
        lemma_shift(c.address as int, batch * stride_c, width, batch * strided.stride_c);
        lemma_call_is_product(
            strided.gemm,
            memory,
            batch * strided.stride_a,
            batch * strided.stride_b,
            x,
            y,
            i,
            j,
        );
        let e = i * n + j;
        assert(batch * strided.stride_c + i * n + j == batch * strided.stride_c + e);
    }
}

/// Elements behind an offset in elements lie behind the same offset in bytes.
pub proof fn lemma_shift(address: int, bytes: int, width: int, elements: int)
    requires
        elements * width == bytes,
    ensures
        forall|e: int| #[trigger]
            ((elements + e) * width) == bytes + e * width,
        forall|memory: spec_fn(int) -> int, e: int| #[trigger]
            element(memory, address, width, elements + e) == element(
                memory,
                address + bytes,
                width,
                e,
            ),
{
    assert forall|e: int| #[trigger] ((elements + e) * width) == bytes + e * width by {
        assert((elements + e) * width == elements * width + e * width) by (nonlinear_arith);
    }
}

/// A call stores `alpha * A[m, k] @ B[k, n] + beta * C` with a dense `B`, rows of `A`
/// that are `lda` elements apart and rows of `C` that are `ldc` apart.
pub open spec fn is_strided_product(
    call: CublasCall,
    m: int,
    n: int,
    k: int,
    alpha: u32,
    a: CudaBuffer,
    width_a: int,
    lda: i32,
    b: CudaBuffer,
    width_b: int,
    beta: u32,
    c: CudaBuffer,
    width_c: int,
    ldc: i32,
    memory: spec_fn(int) -> int,
    i: int,
    j: int,
) -> bool {
    let gemm = call->GemmEx_0;
    &&& call is GemmEx
    &&& has_extents(gemm, m, n, k)
    &&& gemm.alpha == Scalar::Real(alpha) && gemm.beta == Scalar::Real(beta)
    &&& launched_entry(gemm, memory, 0, 0, i, j) == product_entry(
        matrix(memory, a.address as int, width_a, lda as int),
        matrix(memory, b.address as int, width_b, n),
        k,
        i,
        j,
    )
    &&& launched_address(gemm, 0, i, j) == c.address + (i * ldc + j) * width_c
    &&& gemm.compute == cublasComputeType_t::CUBLAS_COMPUTE_32F
}

/// BF16 operands and result, see `is_strided_product`.
pub proof fn lemma_gemm_ld_is_product(
    handle: CublasHandle,
    m: usize,
    n: usize,
    k: usize,
    alpha: u32,
    a: CudaBuffer,
    lda: i32,
    b: CudaBuffer,
    beta: u32,
    c: CudaBuffer,
    ldc: i32,
    call: CublasCall,
    memory: spec_fn(int) -> int,
    i: int,
    j: int,
)
    requires
        call_ensures(
            CublasHandle::gemm_ld,
            (&handle, m, n, k, alpha, &a, lda, &b, beta, &c, ldc),
            call,
        ),
        m <= i32::MAX,
        n <= i32::MAX,
        k <= i32::MAX,
    ensures
        is_strided_product(
            call,
            m as int,
            n as int,
            k as int,
            alpha,
            a,
            2,
            lda,
            b,
            2,
            beta,
            c,
            2,
            ldc,
            memory,
            i,
            j,
        ),
{
    lemma_call_is_product(
        call->GemmEx_0,
        memory,
        0,
        0,
        matrix(memory, a.address as int, 2, lda as int),
        matrix(memory, b.address as int, 2, n as int),
        i,
        j,
    );
}

/// BF16 operands, 32-bit result, see `is_strided_product`.
pub proof fn lemma_gemm_bf16_f32_is_product(
    handle: CublasHandle,
    m: usize,
    n: usize,
    k: usize,
    alpha: u32,
    a: CudaBuffer,
    lda: i32,
    b: CudaBuffer,
    beta: u32,
    c: CudaBuffer,
    ldc: i32,
    call: CublasCall,
    memory: spec_fn(int) -> int,
    i: int,
    j: int,
)
    requires
        call_ensures(
            CublasHandle::gemm_bf16_f32,
            (&handle, m, n, k, alpha, &a, lda, &b, beta, &c, ldc),
            call,
        ),
        m <= i32::MAX,
        n <= i32::MAX,
        k <= i32::MAX,
    ensures
        is_strided_product(
            call,
            m as int,
            n as int,
            k as int,
            alpha,
            a,
            2,
            lda,
            b,
            2,
            beta,
            c,
            4,
            ldc,
            memory,
            i,
            j,
        ),
{
    lemma_call_is_product(
        call->GemmEx_0,
        memory,
        0,
        0,
        matrix(memory, a.address as int, 2, lda as int),
        matrix(memory, b.address as int, 2, n as int),
        i,
        j,
    );
}

/// 32-bit `A`, BF16 `B`, 32-bit result, see `is_strided_product`.
pub proof fn lemma_gemm_f32_bf16_is_product(
    handle: CublasHandle,
    m: usize,
    n: usize,
    k: usize,
    alpha: u32,
    a: CudaBuffer,
    lda: i32,
    b: CudaBuffer,
    beta: u32,
    c: CudaBuffer,
    ldc: i32,
    call: CublasCall,
    memory: spec_fn(int) -> int,
    i: int,
    j: int,
)
    requires
        call_ensures(
            CublasHandle::gemm_f32_bf16,
            (&handle, m, n, k, alpha, &a, lda, &b, beta, &c, ldc),
            call,
        ),
        m <= i32::MAX,
        n <= i32::MAX,
        k <= i32::MAX,
    ensures
        is_strided_product(
            call,
            m as int,
            n as int,
            k as int,
            alpha,
            a,
            4,
            lda,
            b,
            2,
            beta,
            c,
            4,
            ldc,
            memory,
            i,
            j,
        ),
{
    lemma_call_is_product(
        call->GemmEx_0,
        memory,
        0,
        0,
        matrix(memory, a.address as int, 4, lda as int),
        matrix(memory, b.address as int, 2, n as int),
        i,
        j,
    );
}

/// 32-bit operands and result, see `is_strided_product`.
pub proof fn lemma_gemm_ld_f32_is_product(
    handle: CublasHandle,
    m: usize,
    n: usize,
    k: usize,
    alpha: u32,
    a: CudaBuffer,
    lda: i32,
    b: CudaBuffer,
    beta: u32,
    c: CudaBuffer,
    ldc: i32,
    call: CublasCall,
    memory: spec_fn(int) -> int,
    i: int,
    j: int,
)
    requires
        call_ensures(
            CublasHandle::gemm_ld_f32,
            (&handle, m, n, k, alpha, &a, lda, &b, beta, &c, ldc),
            call,
        ),
        m <= i32::MAX,
        n <= i32::MAX,
        k <= i32::MAX,
    ensures
        is_strided_product(
            call,
            m as int,
            n as int,
            k as int,
            alpha,
            a,
            4,
            lda,
            b,
            4,
            beta,
            c,
            4,
            ldc,
            memory,
            i,
            j,
        ),
{
    lemma_call_is_product(
        call->GemmEx_0,
        memory,
        0,
        0,
        matrix(memory, a.address as int, 4, lda as int),
        matrix(memory, b.address as int, 4, n as int),
        i,
        j,
    );
}

/// BF16 operands and a 32-bit result, with transposition and explicit row strides.
pub proof fn lemma_gemm_bf16_f32_ex_is_product(
    handle: CublasHandle,
    transa: CublasTranspose,
    transb: CublasTranspose,
    m: usize,
    n: usize,
    k: usize,
    alpha: Scalar,
    a: CudaBuffer,
    lda: i32,
    b: CudaBuffer,
    ldb: i32,
    beta: Scalar,
    c: CudaBuffer,
    ldc: i32,
    call: CublasCall,
    memory: spec_fn(int) -> int,
    i: int,
    j: int,
)
    requires
        call_ensures(
            CublasHandle::gemm_bf16_f32_ex,
            (&handle, transa, transb, m, n, k, alpha, &a, lda, &b, ldb, beta, &c, ldc),
            call,
        ),
        m <= i32::MAX,
        n <= i32::MAX,
        k <= i32::MAX,
    ensures
        call is GemmEx,
        ({
            let gemm = call->GemmEx_0;
            &&& has_extents(gemm, m as int, n as int, k as int)
            &&& gemm.alpha == alpha && gemm.beta == beta
            &&& launched_entry(gemm, memory, 0, 0, i, j) == product_entry(
                turned(transa, matrix(memory, a.address as int, 2, lda as int)),
                turned(transb, matrix(memory, b.address as int, 2, ldb as int)),
                k as int,
                i,
                j,
            )
            &&& launched_address(gemm, 0, i, j) == c.address + (i * ldc + j) * 4
            &&& gemm.compute == cublasComputeType_t::CUBLAS_COMPUTE_32F
        }),
{
    lemma_call_is_product(
        call->GemmEx_0,
        memory,
        0,
        0,
        turned(transa, matrix(memory, a.address as int, 2, lda as int)),
        turned(transb, matrix(memory, b.address as int, 2, ldb as int)),
        i,
        j,
    );
}

/// Scores of heads that share one key cache: head `batch` of `q` starts `batch`
/// strides of bytes behind the first, and entry `(i, j)` is the scalar product of its
/// row `i` with key `j`.
pub proof fn lemma_batched_gemm_kt_is_scores(
    handle: CublasHandle,
    m: usize,
    n: usize,
    k: usize,
    alpha: u32,
    q: CudaBuffer,
    stride_q: i64,
    k_cache: CudaBuffer,
    beta: u32,
    c: CudaBuffer,
    row_stride: i64,
    stride_c: i64,
    batch_count: i32,
    result: Result<CublasCall, Error>,
    memory: spec_fn(int) -> int,
    batch: int,
    i: int,
    j: int,
)
    requires
        call_ensures(
            CublasHandle::batched_gemm_kt,
            (
                &handle,
                m,
                n,
                k,
                alpha,
                &q,
                stride_q,
                &k_cache,
                beta,
                &c,
                row_stride,
                stride_c,
                batch_count,
            ),
            result,
        ),
        m <= i32::MAX,
        n <= i32::MAX,
        k <= i32::MAX,
        0 <= row_stride <= i32::MAX,
        0 <= batch < batch_count,
    ensures
        result is Ok <==> batch_count <= 1 || stride_q as int % 2 == 0,
        result matches Ok(call) ==> {
            let strided = call->StridedBatched_0;
            &&& call is StridedBatched
            &&& strided.batch_count == batch_count
            &&& has_extents(strided.gemm, m as int, n as int, k as int)
            &&& strided.gemm.alpha == Scalar::Real(alpha) && strided.gemm.beta == Scalar::Real(beta)
            &&& launched_entry(
                strided.gemm,
                memory,
                batch * strided.stride_a,
                batch * strided.stride_b,
                i,
                j,
            ) == product_entry(
                matrix(memory, q.address + batch * stride_q, 2, k as int),
                transposed(matrix(memory, k_cache.address as int, 2, k as int)),
                k as int,
                i,
                j,
            )
            &&& launched_address(strided.gemm, batch * strided.stride_c, i, j) == c.address + (batch
                * stride_c + i * row_stride + j) * 2
        },
{
    if let Ok(call) = result {
        let strided = call->StridedBatched_0;
        crate::cublas::lemma_batch_offset(stride_q, DType::BF16, batch_count, batch);
        lemma_shift(q.address as int, batch * stride_q, 2, batch * strided.stride_b);
        assert(batch * strided.stride_a == 0) by (nonlinear_arith)
            requires
                strided.stride_a == 0,
        ;
        lemma_call_is_product(
            strided.gemm,
            memory,
            batch * strided.stride_a,
            batch * strided.stride_b,
            matrix(memory, q.address + batch * stride_q, 2, k as int),
            transposed(matrix(memory, k_cache.address as int, 2, k as int)),
            i,
            j,
        );
    }
}

/// Outputs of heads that share one value cache: head `batch` of `p` starts `batch`
/// strides of elements behind the first, and its row `i` weighs the rows of `v`.
pub proof fn lemma_batched_gemm_pv_is_outputs(
    handle: CublasHandle,
    m: usize,
    n: usize,
    k: usize,
    alpha: u32,
    p: CudaBuffer,
    row_stride: i64,
    stride_p: i64,
    v: CudaBuffer,
    beta: u32,
    c: CudaBuffer,
    stride_c: i64,
    batch_count: i32,
    call: CublasCall,
    memory: spec_fn(int) -> int,
    batch: int,
    i: int,
    j: int,
)
    requires
        call_ensures(
            CublasHandle::batched_gemm_pv,
            (
                &handle,
                m,
                n,
                k,
                alpha,
                &p,
                row_stride,
                stride_p,
                &v,
                beta,
                &c,
                stride_c,
                batch_count,
            ),
            call,
        ),
        m <= i32::MAX,
        n <= i32::MAX,
        k <= i32::MAX,
        0 <= row_stride <= i32::MAX,
    ensures
        call is StridedBatched,
        ({
            let strided = call->StridedBatched_0;
            &&& strided.batch_count == batch_count
            &&& has_extents(strided.gemm, m as int, n as int, k as int)
            &&& strided.gemm.alpha == Scalar::Real(alpha) && strided.gemm.beta == Scalar::Real(beta)
            &&& launched_entry(
                strided.gemm,
                memory,
                batch * strided.stride_a,
                batch * strided.stride_b,
                i,
                j,
            ) == product_entry(
                matrix(memory, p.address + batch * stride_p * 2, 2, row_stride as int),
                matrix(memory, v.address as int, 2, n as int),
                k as int,
                i,
                j,
            )
            &&& launched_address(strided.gemm, batch * strided.stride_c, i, j) == c.address + (batch
                * stride_c + i * n + j) * 2
        }),
{
    let strided = call->StridedBatched_0;
    lemma_shift(p.address as int, batch * stride_p * 2, 2, batch * strided.stride_b);
    assert(batch * strided.stride_a == 0) by (nonlinear_arith)
        requires
            strided.stride_a == 0,
    ;
    lemma_call_is_product(
        strided.gemm,
        memory,
        batch * strided.stride_a,
        batch * strided.stride_b,
        matrix(memory, p.address + batch * stride_p * 2, 2, row_stride as int),
        matrix(memory, v.address as int, 2, n as int),
        i,
        j,
    );
}

/// A pointer-array batch hands on its operands as they were given, in column-major
/// terms: batch `b` stores the product of the matrices that its `a` and `b` pointers
/// name at the matrix that its `c` pointer names.
pub proof fn lemma_gemm_batched_ex_keeps_places(
    handle: CublasHandle,
    trans_a: cublasOperation_t,
    trans_b: cublasOperation_t,
    m: usize,
    n: usize,
    k: usize,
    alpha: u32,
    a_ptrs: CudaBuffer,
    lda: i32,
    b_ptrs: CudaBuffer,
    ldb: i32,
    beta: u32,
    c_ptrs: CudaBuffer,
    ldc: i32,
    batch_count: i32,
    call: CublasCall,
    memory: spec_fn(int) -> int,
    batch: int,
    i: int,
    j: int,
)
    requires
        call_ensures(
            CublasHandle::gemm_batched_ex,
            (
                &handle,
                trans_a,
                trans_b,
                m,
                n,
                k,
                alpha,
                &a_ptrs,
                lda,
                &b_ptrs,
                ldb,
                beta,
                &c_ptrs,
                ldc,
                batch_count,
            ),
            call,
        ),
        m <= i32::MAX,
        n <= i32::MAX,
        k <= i32::MAX,
    ensures
        call is Batched,
        call->Batched_batch_count == batch_count,
        ({
            let gemm = call->gemm;
            let a = memory(a_ptrs.address + 8 * batch);
            let b = memory(b_ptrs.address + 8 * batch);
            &&& gemm.m == m && gemm.n == n
            &&& gemm.alpha == Scalar::Real(alpha) && gemm.beta == Scalar::Real(beta)
            &&& column_product(
                gemm,
                |x: int| element(memory, memory(gemm.a.address + 8 * batch), 2, x),
                |x: int| element(memory, memory(gemm.b.address + 8 * batch), 2, x),
                i,
                j,
            ) == dot(
                |l: int| column_entry(trans_a, |x: int| element(memory, a, 2, x), lda as int, i, l),
                |l: int| column_entry(trans_b, |x: int| element(memory, b, 2, x), ldb as int, l, j),
                k as int,
            )
            &&& gemm.c.address == c_ptrs.address && gemm.c.ld == ldc
            &&& stored_width(gemm.a.dtype) == 2 && stored_width(gemm.b.dtype) == 2
                && stored_width(gemm.c.dtype) == 2
        }),
{
}

} // verus!
