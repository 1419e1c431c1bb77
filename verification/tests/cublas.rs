use apxinf_cuda::cublas::{CublasCall, CublasHandle, CublasTranspose, GemmExCall, Scalar, Stored};
use apxinf_cuda::error::Error;
use apxinf_cuda::ffi::cublas::{
    check_cublas, cublasComputeType_t, cublasOperation_t, cudaDataType_t,
};
use apxinf_cuda::types::{CudaBuffer, DType};

const ONE: u32 = 0x3f80_0000;

fn span(address: usize, len: usize) -> CudaBuffer {
    CudaBuffer {
        address,
        len,
        device: 0,
    }
}

/// Runs a call on small matrices of integers in one flat memory.
fn run(call: &GemmExCall, memory: &mut [i64]) {
    let entry = |op: cublasOperation_t, at: &Stored, i: usize, j: usize| match op {
        cublasOperation_t::CUBLAS_OP_N => at.address + j * at.ld as usize + i,
        cublasOperation_t::CUBLAS_OP_T => at.address + i * at.ld as usize + j,
    };
    for i in 0..call.m as usize {
        for j in 0..call.n as usize {
            let mut sum = 0;
            for l in 0..call.k as usize {
                sum += memory[entry(call.trans_a, &call.a, i, l)]
                    * memory[entry(call.trans_b, &call.b, l, j)];
            }
            memory[call.c.address + j * call.c.ld as usize + i] = sum;
        }
    }
}

#[test]
fn column_major_call_gives_the_row_major_product() {
    let handle = CublasHandle { handle: 1 };
    // A is 2x3 at 0, B is 3x2 at 6, C is 2x2 at 12.
    let mut memory = vec![1, 2, 3, 4, 5, 6, 7, 8, 9, 10, 11, 12, 0, 0, 0, 0];
    let call = handle
        .gemm(
            DType::BF16,
            2,
            2,
            3,
            ONE,
            &span(0, 12),
            &span(6, 12),
            0,
            &span(12, 8),
        )
        .unwrap();
    match call {
        CublasCall::GemmEx(call) => run(&call, &mut memory),
        call => panic!("unexpected call {call:?}"),
    }
    assert_eq!(memory[12..], [58, 64, 139, 154]);
}

#[test]
fn transposed_operands_give_the_row_major_product() {
    let handle = CublasHandle { handle: 1 };
    // A is 2x3 at 0, B is stored as its 2x3 transpose at 6.
    let mut memory = vec![1, 2, 3, 4, 5, 6, 7, 9, 11, 8, 10, 12, 0, 0, 0, 0];
    let call = handle
        .gemm_ex(
            DType::F32,
            CublasTranspose::Normal,
            CublasTranspose::Transpose,
            2,
            2,
            3,
            Scalar::Real(ONE),
            &span(0, 24),
            3,
            &span(6, 24),
            3,
            Scalar::Real(0),
            &span(12, 16),
            2,
        )
        .unwrap();
    match call {
        CublasCall::GemmEx(call) => {
            assert_eq!(call.algo, 99);
            run(&call, &mut memory);
        }
        call => panic!("unexpected call {call:?}"),
    }
    assert_eq!(memory[12..], [58, 64, 139, 154]);
}

#[test]
fn element_types_pick_the_entry_point() {
    let handle = CublasHandle { handle: 1 };
    let a = span(0x10, 64);
    assert!(matches!(
        handle.gemm(DType::F32, 2, 2, 2, ONE, &a, &a, 0, &a),
        Ok(CublasCall::Sgemm(_))
    ));
    assert!(matches!(
        handle.gemm(DType::F16, 2, 2, 2, ONE, &a, &a, 0, &a),
        Ok(CublasCall::GemmEx(_))
    ));
    assert_eq!(
        handle.gemm(DType::F8E4M3, 2, 2, 2, ONE, &a, &a, 0, &a),
        Err(Error::Other("use kernels::gemm::fp8 for FP8 operands"))
    );
    assert!(handle.gemm(DType::I64, 2, 2, 2, ONE, &a, &a, 0, &a).is_err());
    match handle
        .batched_gemm(DType::BF16, 2, 3, 4, ONE, &a, 16, &a, 24, 0, &a, 12, 8)
        .unwrap()
    {
        CublasCall::StridedBatched(batch) => {
            assert_eq!((batch.stride_a, batch.stride_b, batch.stride_c), (12, 8, 6));
            assert_eq!((batch.gemm.m, batch.gemm.n, batch.gemm.k), (3, 2, 4));
            assert_eq!(batch.gemm.algo, -1);
            assert_eq!(batch.batch_count, 8);
        }
        call => panic!("unexpected call {call:?}"),
    }
}

#[test]
fn integer_product_checks_its_buffers() {
    let handle = CublasHandle { handle: 1 };
    let run = |activation: usize, weight: usize, output: usize| {
        handle.gemm_int8_i32(
            2,
            3,
            4,
            &span(0x10, activation),
            &span(0x20, weight),
            &span(0x30, output),
        )
    };
    match run(8, 12, 24).unwrap() {
        CublasCall::GemmEx(call) => {
            assert_eq!(call.trans_a, cublasOperation_t::CUBLAS_OP_T);
            assert_eq!((call.m, call.n, call.k), (3, 2, 4));
            assert_eq!(call.alpha, Scalar::Integer(1));
            assert_eq!(call.a.address, 0x20);
            assert_eq!(call.c.dtype, cudaDataType_t::CUDA_R_32I);
            assert_eq!(call.compute, cublasComputeType_t::CUBLAS_COMPUTE_32I);
        }
        call => panic!("unexpected call {call:?}"),
    }
    for (activation, weight, output) in [(7, 12, 24), (8, 11, 24), (8, 12, 23)] {
        assert!(run(activation, weight, output).is_err());
    }
}

#[test]
fn attention_products_share_one_cache() {
    let handle = CublasHandle { handle: 1 };
    let (p, v, c) = (span(0x10, 64), span(0x20, 64), span(0x30, 64));
    match handle.batched_gemm_kt(2, 3, 4, ONE, &p, 16, &v, 0, &c, 5, 10, 6).unwrap() {
        CublasCall::StridedBatched(batch) => {
            assert_eq!(batch.gemm.trans_a, cublasOperation_t::CUBLAS_OP_T);
            assert_eq!((batch.stride_a, batch.stride_b, batch.stride_c), (0, 8, 10));
            assert_eq!((batch.gemm.a.ld, batch.gemm.b.ld, batch.gemm.c.ld), (4, 4, 5));
        }
        call => panic!("unexpected call {call:?}"),
    }
    match handle.batched_gemm_pv(2, 3, 4, ONE, &p, 5, 10, &v, 0, &c, 6, 7) {
        CublasCall::StridedBatched(batch) => {
            assert_eq!((batch.stride_a, batch.stride_b, batch.stride_c), (0, 10, 6));
            assert_eq!((batch.gemm.a.ld, batch.gemm.b.ld, batch.gemm.c.ld), (3, 5, 3));
        }
        call => panic!("unexpected call {call:?}"),
    }
    let types = |call: CublasCall| match call {
        CublasCall::GemmEx(call) => (call.a.dtype, call.b.dtype, call.c.dtype),
        call => panic!("unexpected call {call:?}"),
    };
    let (wide, narrow) = (cudaDataType_t::CUDA_R_32F, cudaDataType_t::CUDA_R_16BF);
    assert_eq!(
        types(handle.gemm_ld(2, 3, 4, ONE, &p, 5, &v, 0, &c, 3)),
        (narrow, narrow, narrow)
    );
    assert_eq!(
        types(handle.gemm_bf16_f32(2, 3, 4, ONE, &p, 5, &v, 0, &c, 3)),
        (narrow, narrow, wide)
    );
    assert_eq!(
        types(handle.gemm_f32_bf16(2, 3, 4, ONE, &p, 5, &v, 0, &c, 3)),
        (narrow, wide, wide)
    );
    assert_eq!(
        types(handle.gemm_ld_f32(2, 3, 4, ONE, &p, 5, &v, 0, &c, 3)),
        (wide, wide, wide)
    );
}

#[test]
fn native_numbers_and_status() {
    assert_eq!(cublasOperation_t::CUBLAS_OP_T.value(), 1);
    assert_eq!(cudaDataType_t::CUDA_R_16BF.value(), 14);
    assert_eq!(cublasComputeType_t::CUBLAS_COMPUTE_32I.value(), 72);
    assert_eq!(check_cublas(0), Ok(()));
    assert_eq!(check_cublas(13), Err("cuBLAS error: status 13".to_string()));
}

#[test]
fn pointer_arrays_keep_their_places() {
    let handle = CublasHandle { handle: 1 };
    let call = handle.gemm_batched_ex(
        cublasOperation_t::CUBLAS_OP_T,
        cublasOperation_t::CUBLAS_OP_N,
        4,
        3,
        2,
        ONE,
        &span(100, 64),
        5,
        &span(200, 64),
        6,
        0,
        &span(300, 64),
        7,
        8,
    );
    match call {
        CublasCall::Batched { gemm, batch_count } => {
            assert_eq!(batch_count, 8);
            assert_eq!((gemm.m, gemm.n, gemm.k), (4, 3, 2));
            assert_eq!(gemm.trans_a, cublasOperation_t::CUBLAS_OP_T);
            assert_eq!(gemm.trans_b, cublasOperation_t::CUBLAS_OP_N);
            assert_eq!((gemm.a.address, gemm.a.ld), (100, 5));
            assert_eq!((gemm.b.address, gemm.b.ld), (200, 6));
            assert_eq!((gemm.c.address, gemm.c.ld), (300, 7));
            assert_eq!(gemm.c.dtype, cudaDataType_t::CUDA_R_16BF);
            assert_eq!((gemm.alpha, gemm.beta), (Scalar::Real(ONE), Scalar::Real(0)));
            assert_eq!(gemm.algo, 113);
        }
        call => panic!("unexpected call {call:?}"),
    }
}

#[test]
fn batch_strides_are_bytes() {
    let handle = CublasHandle { handle: 1 };
    let a = span(0x10, 1 << 20);
    for (dtype, size) in [(DType::F32, 4), (DType::F16, 2), (DType::BF16, 2)] {
        let run = |x: i64, y: i64, z: i64| {
            handle.batched_gemm(dtype, 2, 3, 4, ONE, &a, x, &a, y, 0, &a, z, 5)
        };
        match run(8 * size, -12 * size, 6 * size).unwrap() {
            CublasCall::StridedBatched(batch) => {
                assert_eq!((batch.stride_a, batch.stride_b, batch.stride_c), (-12, 8, 6));
            }
            call => panic!("unexpected call {call:?}"),
        }
        for (x, y, z) in [(size + 1, 0, 0), (0, -1, 0), (0, 0, 2 * size - 1)] {
            assert!(matches!(run(x, y, z), Err(Error::Other(text)) if text.contains("stride")));
        }
    }
    assert!(handle.batched_gemm_kt(2, 3, 4, ONE, &a, 7, &a, 0, &a, 5, 10, 6).is_err());
    // A batch of one uses no stride.
    assert!(handle.batched_gemm_kt(2, 3, 4, ONE, &a, 7, &a, 0, &a, 5, 10, 1).is_ok());
    match handle
        .batched_gemm(DType::F16, 2, 3, 4, ONE, &a, 3, &a, 24, 0, &a, -5, 1)
        .unwrap()
    {
        CublasCall::StridedBatched(batch) => {
            assert_eq!((batch.stride_a, batch.stride_b, batch.stride_c), (12, 0, 0));
            assert_eq!(batch.batch_count, 1);
        }
        call => panic!("unexpected call {call:?}"),
    }
}
