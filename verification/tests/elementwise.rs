use apxinf_cuda::context::{CudaContext, CudaLibraryVersions, CudaStream};
use apxinf_cuda::cublas::CublasHandle;
use apxinf_cuda::device_caps::{CudaArchFamily, CudaDeviceCaps};
use apxinf_cuda::error::Error;
use apxinf_cuda::kernels::cache::{append, append_at, reserve_prefix_bf16, reserve_prefix_f16};
use apxinf_cuda::kernels::elementwise::{
    add, add_bias, add_into, bias_f16, bias_qkv_in_place_bf16, concat_rows_bf16, concat_rows_f16,
    contiguous_rows, euler_update_bf16, euler_update_f16, gather_rows_bf16,
    gather_rows_bf16_device_indices, gather_rows_bf16_prepared, mul, mul_into,
    prepare_row_indices, replace_rows_bf16, rows_are_unique, scale, scatter_rows_bf16,
    scatter_rows_bf16_prepared, BinaryOp, Factor, PreparedRowIndices,
};
use apxinf_cuda::tuning::{TuningMode, TuningSession};
use apxinf_cuda::types::{CudaBuffer, CudaDeviceAddress, DType, Device, Tensor};

fn context() -> CudaContext {
    CudaContext::new(
        0,
        CudaStream { handle: 7 },
        CublasHandle { handle: 9 },
        CudaDeviceCaps {
            sm: 110,
            compute_major: 11,
            multiprocessor_count: 20,
            arch_family: CudaArchFamily::Sm100,
        },
        CudaLibraryVersions::from_reported(13_000, 130_000).unwrap(),
        TuningSession {
            generation: 4,
            mode: TuningMode::Inference,
            records: vec![],
        },
    )
}

fn span(address: usize, len: usize) -> CudaBuffer {
    CudaBuffer {
        address,
        len,
        device: 0,
    }
}

fn tensor(dtype: DType, dims: &[usize], address: usize) -> Tensor {
    let elements: usize = dims.iter().product();
    Tensor {
        dtype,
        device: Device::Cuda(0),
        dims: dims.to_vec(),
        buffer: span(address, elements * dtype.size_in_bytes()),
    }
}

fn other<T: std::fmt::Debug>(result: Result<T, Error>) -> String {
    match result.unwrap_err() {
        Error::Other(text) => text.to_string(),
        error => panic!("unexpected error {error:?}"),
    }
}

fn bf16(dims: &[usize], address: usize) -> Tensor {
    tensor(DType::BF16, dims, address)
}

#[test]
fn caller_owned_addition_checks_sizes_and_type() {
    let ctx = context();
    let launch = add_into(
        &ctx,
        DType::F32,
        &span(0x10, 40),
        &span(0x20, 40),
        &span(0x30, 40),
        10,
    )
    .unwrap();
    assert_eq!((launch.op, launch.count, launch.output), (BinaryOp::Add, 10, 0x30));
    let launch = mul_into(
        &ctx,
        DType::BF16,
        &span(0x10, 20),
        &span(0x20, 20),
        &span(0x30, 20),
        10,
    )
    .unwrap();
    assert_eq!(launch.op, BinaryOp::Multiply);
    assert_eq!(
        add_into(
            &ctx,
            DType::F32,
            &span(0x10, 40),
            &span(0x20, 39),
            &span(0x30, 40),
            10
        ),
        Err(Error::BufferLength {
            operation: "decode add",
            name: "B",
            required: 40,
            got: 39,
        })
    );
    // FP16 has a size, and no kernel.
    assert_eq!(
        add_into(
            &ctx,
            DType::F16,
            &span(0x10, 40),
            &span(0x20, 40),
            &span(0x30, 40),
            10
        ),
        Err(Error::UnsupportedDType {
            operation: "decode add",
            dtype: DType::F16,
        })
    );
    assert!(matches!(
        add_into(
            &ctx,
            DType::F32,
            &span(0x10, 40),
            &span(0x20, 40),
            &span(0x30, 40),
            0
        ),
        Err(Error::Dimensions { problem: "dimensions must be non-zero", .. })
    ));
    assert!(matches!(
        add_into(
            &ctx,
            DType::F32,
            &span(0x10, 40),
            &span(0x20, 40),
            &span(0x30, 40),
            usize::MAX
        ),
        Err(Error::Operation { .. })
    ));
}

#[test]
fn tensor_operations_count_every_element() {
    let a = tensor(DType::F32, &[2, 3, 4], 0x10);
    let b = tensor(DType::F32, &[2, 3, 4], 0x20);
    let launch = add(&a, &b).unwrap();
    assert_eq!((launch.count, launch.output_bytes), (24, 96));
    assert_eq!(mul(&a, &b).unwrap().op, BinaryOp::Multiply);
    let scaled = scale(&a, Factor::InverseRoot(64)).unwrap();
    assert_eq!((scaled.count, scaled.factor), (24, Factor::InverseRoot(64)));
    assert!(matches!(
        add(&tensor(DType::I64, &[2], 0x10), &b),
        Err(Error::UnsupportedDType { .. })
    ));
    let bias = add_bias(&bf16(&[5, 7], 0x10), &bf16(&[7], 0x20)).unwrap();
    assert_eq!((bias.rows, bias.cols, bias.output_bytes), (5, 7, 70));
    let flat = add_bias(&bf16(&[7], 0x10), &bf16(&[7], 0x20)).unwrap();
    assert_eq!((flat.rows, flat.cols), (1, 7));
    assert_eq!(other(add_bias(&a, &b)), "add_bias: only BF16 supported");
}

#[test]
fn fused_biases_need_equal_projections() {
    let ctx = context();
    let matrix = bf16(&[3, 8], 0x10);
    let vector = bf16(&[8], 0x20);
    let launch =
        bias_qkv_in_place_bf16(&ctx, &matrix, &matrix, &matrix, &vector, &vector, &vector).unwrap();
    assert_eq!((launch.rows, launch.cols), (3, 8));
    let short = bf16(&[2, 8], 0x10);
    assert!(matches!(
        bias_qkv_in_place_bf16(&ctx, &matrix, &short, &matrix, &vector, &vector, &vector),
        Err(Error::Operation { .. })
    ));
    let odd = bf16(&[3, 6], 0x10);
    let narrow = bf16(&[6], 0x20);
    assert!(other(bias_qkv_in_place_bf16(
        &ctx, &odd, &odd, &odd, &narrow, &narrow, &narrow
    ))
    .contains("divisible by 4"));
}

#[test]
fn concatenation_stacks_rows() {
    let launch = concat_rows_bf16(&bf16(&[3, 8], 0x10), &bf16(&[2, 8], 0x20)).unwrap();
    assert_eq!((launch.first_rows, launch.second_rows, launch.cols), (3, 2, 8));
    assert_eq!((launch.output.rows, launch.output.bytes), (5, 80));
    assert!(other(concat_rows_bf16(&bf16(&[3, 8], 0x10), &bf16(&[2, 7], 0x20)))
        .contains("equal widths"));
    assert!(other(concat_rows_f16(&bf16(&[3, 8], 0x10), &bf16(&[2, 8], 0x20)))
        .contains("FP16 matrices"));
}

#[test]
fn row_indices_are_checked_once() {
    let indices = prepare_row_indices(&[4, 0, 2], 5).unwrap();
    assert_eq!(indices.indices, vec![4, 0, 2]);
    assert!(indices.unique);
    assert!(!prepare_row_indices(&[4, 0, 4], 5).unwrap().unique);
    assert!(other(prepare_row_indices(&[], 5)).contains("at least one row"));
    assert!(prepare_row_indices(&[5], 5).is_err());
    assert!(prepare_row_indices(&[1 << 33], 1 << 34).is_err());
    assert!(rows_are_unique(&[]));
    assert!(!rows_are_unique(&[7, 7]));
}

#[test]
fn gather_takes_prepared_indices_of_the_same_matrix() {
    let ctx = context();
    let input = bf16(&[5, 8], 0x10);
    assert_eq!(gather_rows_bf16(&input, &[1, 1]).unwrap().indices, vec![1, 1]);
    let prepared = PreparedRowIndices {
        buffer: span(0x40, 8),
        matrix_rows: 5,
        row_count: 2,
        unique: true,
    };
    let launch = gather_rows_bf16_prepared(&ctx, &input, &prepared).unwrap();
    assert_eq!((launch.rows, launch.cols, launch.output.bytes), (2, 8, 32));
    let stale = PreparedRowIndices {
        matrix_rows: 6,
        ..prepared
    };
    assert!(gather_rows_bf16_prepared(&ctx, &input, &stale).is_err());
    assert!(gather_rows_bf16_device_indices(&ctx, &input, &span(0x40, 24), 6).is_err());
    assert!(gather_rows_bf16_device_indices(&ctx, &input, &span(0x40, 19), 5).is_err());
}

#[test]
fn scatter_needs_unique_rows() {
    let ctx = context();
    let destination = bf16(&[5, 8], 0x10);
    let source = bf16(&[2, 8], 0x20);
    assert!(scatter_rows_bf16(&destination, &[3, 1], &source).is_ok());
    assert!(other(scatter_rows_bf16(&destination, &[3, 3], &source)).contains("unique"));
    assert!(scatter_rows_bf16(&destination, &[3], &source).is_err());
    let prepared = PreparedRowIndices {
        buffer: span(0x40, 8),
        matrix_rows: 5,
        row_count: 2,
        unique: true,
    };
    let launch = scatter_rows_bf16_prepared(&ctx, &destination, &prepared, &source, true).unwrap();
    assert_eq!((launch.count, launch.width, launch.add), (2, 8, true));
    assert_eq!(launch.destination_bytes, 80);
    let repeated = PreparedRowIndices {
        unique: false,
        ..prepared
    };
    assert!(
        other(scatter_rows_bf16_prepared(&ctx, &destination, &repeated, &source, false))
            .contains("unique")
    );
    let mut far = bf16(&[2, 8], 0x20);
    far.device = Device::Cuda(3);
    assert_eq!(
        scatter_rows_bf16_prepared(&ctx, &destination, &prepared, &far, false),
        Err(Error::DeviceMismatch {
            expected: Device::Cuda(0),
            got: Device::Cuda(3),
        })
    );
}

#[test]
fn replacement_maps_every_base_row() {
    let ctx = context();
    let base = bf16(&[5, 8], 0x10);
    let launch =
        replace_rows_bf16(&ctx, &base, &bf16(&[2, 8], 0x20), &span(0x40, 20)).unwrap();
    assert_eq!((launch.rows, launch.cols), (5, 8));
    assert!(replace_rows_bf16(&ctx, &base, &bf16(&[2, 8], 0x20), &span(0x40, 19)).is_err());
    assert!(replace_rows_bf16(&ctx, &base, &bf16(&[2, 7], 0x20), &span(0x40, 20)).is_err());
}

#[test]
fn row_slices_are_views() {
    let ctx = context();
    let input = tensor(DType::F32, &[5, 8], 0x100);
    let rows = contiguous_rows(&ctx, &input, 2, 3).unwrap();
    assert_eq!(rows.dims, vec![3, 8]);
    assert_eq!(rows.buffer, span(0x100 + 64, 96));
    assert!(contiguous_rows(&ctx, &input, 3, 3).is_err());
    assert!(contiguous_rows(&ctx, &input, 0, 0).is_err());
    assert!(other(contiguous_rows(&ctx, &input, usize::MAX, 1)).contains("range overflow"));
}

#[test]
fn euler_updates_want_matching_tensors() {
    let state = bf16(&[4, 5], 0x10);
    let launch = euler_update_bf16(&state, &bf16(&[4, 5], 0x20), 0.1f32.to_bits()).unwrap();
    assert_eq!((launch.count, launch.output_bytes), (20, 40));
    assert!(euler_update_bf16(&state, &bf16(&[5, 4], 0x20), 0).is_err());
    assert!(euler_update_f16(&state, &state, 0).is_err());
}

#[test]
fn half_precision_bias_is_optional() {
    let input = tensor(DType::F16, &[3, 8], 0x10);
    assert_eq!(bias_f16(&input, None).unwrap().bias, 0);
    let bias = tensor(DType::F16, &[8], 0x20);
    assert_eq!(bias_f16(&input, Some(&bias)).unwrap().bias, 0x20);
    assert!(bias_f16(&input, Some(&tensor(DType::F16, &[7], 0x20))).is_err());
}

#[test]
fn cache_append_checks_the_whole_cache() {
    let ctx = context();
    let position = CudaDeviceAddress {
        address: 0x90,
        len: 4,
        device: 0,
    };
    let cache = span(0x10, 2 * 16 * 8 * 2);
    let launch =
        append_at(&ctx, DType::BF16, &cache, &span(0x20, 32), 2, 8, 16, position).unwrap();
    assert_eq!((launch.kv_heads, launch.head_dim, launch.max_seq_len), (2, 8, 16));
    assert!(append_at(&ctx, DType::BF16, &cache, &span(0x20, 31), 2, 8, 16, position).is_err());
    assert!(append_at(&ctx, DType::BF16, &cache, &span(0x20, 64), 2, 8, 17, position).is_err());
    assert_eq!(
        append_at(&ctx, DType::F16, &cache, &span(0x20, 32), 2, 8, 16, position),
        Err(Error::UnsupportedDType {
            operation: "decode KV append",
            dtype: DType::F16,
        })
    );
    let rows = append(&cache, &bf16(&[3, 2, 8], 0x20), 2, 8, 16, 5, 3).unwrap();
    assert_eq!((rows.seq_len, rows.append_len), (5, 3));
    assert!(append(&cache, &tensor(DType::I32, &[3], 0x20), 2, 8, 16, 5, 3).is_err());
}

#[test]
fn reserved_cache_holds_its_prefix() {
    let prefix = bf16(&[3, 8], 0x10);
    let copy = reserve_prefix_bf16(&prefix, 5).unwrap();
    assert_eq!((copy.bytes, copy.output.rows, copy.output.bytes), (48, 5, 80));
    assert!(copy.bytes <= copy.output.bytes);
    assert!(reserve_prefix_bf16(&prefix, 2).is_err());
    assert!(reserve_prefix_f16(&prefix, 5).is_err());
    assert!(other(reserve_prefix_bf16(&prefix, usize::MAX)).contains("output size overflow"));
}
