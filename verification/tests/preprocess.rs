use apxinf_cuda::context::{CudaContext, CudaLibraryVersions, CudaStream};
use apxinf_cuda::cublas::CublasHandle;
use apxinf_cuda::device_caps::{CudaArchFamily, CudaDeviceCaps};
use apxinf_cuda::error::Error;
use apxinf_cuda::kernels::preprocess::{
    normalized_temporal_merged_preprocess_dimensions,
    rgb_u8_to_normalized_temporal_merged_patches_bf16, rgb_u8_to_patches_bf16,
    rgb_u8_to_patches_e4m3, rgb_u8_to_patches_f32, Channels, ImageLayout, Normalization,
};
use apxinf_cuda::tuning::{TuningMode, TuningSession};
use apxinf_cuda::types::{CudaBuffer, DType, Device, Tensor};

fn error_message<T: std::fmt::Debug>(result: Result<T, Error>) -> String {
    result.unwrap_err().message().to_string()
}

#[test]
fn normalized_temporal_merged_dimensions_accept_representative_shape() {
    let dimensions = normalized_temporal_merged_preprocess_dimensions(2, 252, 14, 2, 2).unwrap();
    assert_eq!(dimensions.expected_bytes, 381_024);
    assert_eq!(dimensions.patch_rows, 648);
    assert_eq!(dimensions.patch_width, 1_176);
    assert_eq!(dimensions.views, 2);
    assert_eq!(dimensions.image_size, 252);
}

#[test]
fn normalized_temporal_merged_dimensions_reject_int_kernel_intermediate_overflow() {
    let patch_merge = error_message(normalized_temporal_merged_preprocess_dimensions(
        1, 1, 50_000, 1, 50_000,
    ));
    assert!(patch_merge.contains("patch/merge size exceeds the CUDA kernel range"));

    let patch_area = error_message(normalized_temporal_merged_preprocess_dimensions(
        1, 46_341, 46_341, 1, 1,
    ));
    assert!(patch_area.contains("patch area exceeds the CUDA kernel range"));

    let rows = error_message(normalized_temporal_merged_preprocess_dimensions(
        1, 46_341, 1, 1, 1,
    ));
    assert!(rows.contains("per-view patch row count exceeds the CUDA kernel range"));

    let width = error_message(normalized_temporal_merged_preprocess_dimensions(
        1,
        1,
        1,
        715_827_883,
        1,
    ));
    assert!(width.contains("patch width exceeds the CUDA kernel range"));

    let total_rows = error_message(normalized_temporal_merged_preprocess_dimensions(
        2, 46_340, 1, 1, 1,
    ));
    assert!(total_rows.contains("patch row count exceeds the CUDA kernel range"));
}

#[test]
fn normalized_temporal_merged_dimensions_reject_values_outside_ffi_abi() {
    let views = error_message(normalized_temporal_merged_preprocess_dimensions(
        i32::MAX as usize + 1,
        1,
        1,
        1,
        1,
    ));
    assert!(views.contains("views exceed the CUDA ABI range"));
}

#[test]
fn merged_patches_hold_every_pixel_per_frame() {
    let dimensions = normalized_temporal_merged_preprocess_dimensions(2, 252, 14, 2, 2).unwrap();
    assert_eq!(
        dimensions.patch_rows * dimensions.patch_width,
        dimensions.expected_bytes * 2
    );
}

#[test]
fn layouts_have_their_kernel_numbers() {
    assert_eq!(ImageLayout::Nhwc.kernel_value(), 0);
    assert_eq!(ImageLayout::Nchw.kernel_value(), 1);
    assert_eq!(ImageLayout::Nhwc.name(), "nhwc");
    assert_eq!(ImageLayout::Nchw.name(), "nchw");
}

fn context() -> CudaContext {
    CudaContext::new(
        0,
        CudaStream { handle: 7 },
        CublasHandle { handle: 9 },
        CudaDeviceCaps {
            sm: 87,
            compute_major: 8,
            multiprocessor_count: 16,
            arch_family: CudaArchFamily::Sm80,
        },
        CudaLibraryVersions::from_reported(12_060, 120_604).unwrap(),
        TuningSession {
            generation: 0,
            mode: TuningMode::Inference,
            records: vec![],
        },
    )
}

fn span(address: usize, len: usize) -> CudaBuffer {
    CudaBuffer {
        address,
        len,
        device: 0,
    }
}

fn patches(dtype: DType, dims: &[usize]) -> Tensor {
    Tensor {
        dtype,
        device: Device::Cuda(0),
        dims: dims.to_vec(),
        buffer: span(0x2000, 1 << 20),
    }
}

#[test]
fn plain_patches_have_exact_shapes() {
    let ctx = context();
    let images = span(0x1000, 2 * 3 * 28 * 28);
    let launch = rgb_u8_to_patches_bf16(
        &ctx,
        &images,
        &patches(DType::BF16, &[8, 588]),
        2,
        28,
        14,
        ImageLayout::Nchw,
    )
    .unwrap();
    assert_eq!((launch.views, launch.image_size, launch.patch_size), (2, 28, 14));
    assert_eq!(launch.layout, 1);
    assert!(rgb_u8_to_patches_f32(
        &ctx,
        &images,
        &patches(DType::BF16, &[8, 588]),
        2,
        28,
        14,
        ImageLayout::Nhwc,
    )
    .is_err());
    assert!(rgb_u8_to_patches_bf16(
        &ctx,
        &images,
        &patches(DType::BF16, &[8, 588]),
        2,
        28,
        13,
        ImageLayout::Nhwc,
    )
    .is_err());
    assert!(rgb_u8_to_patches_bf16(
        &ctx,
        &span(0x1000, 2 * 3 * 28 * 28 + 1),
        &patches(DType::BF16, &[8, 588]),
        2,
        28,
        14,
        ImageLayout::Nhwc,
    )
    .is_err());
}

#[test]
fn quantized_patches_need_a_positive_scale() {
    let ctx = context();
    let images = span(0x1000, 2 * 3 * 28 * 28);
    let run = |scale: f32| {
        rgb_u8_to_patches_e4m3(
            &ctx,
            &images,
            &patches(DType::F8E4M3, &[8, 588]),
            2,
            28,
            14,
            ImageLayout::Nhwc,
            scale.to_bits(),
        )
    };
    assert_eq!(run(0.5).unwrap().scale, 0.5f32.to_bits());
    for scale in [0.0, -1.0, f32::INFINITY, f32::NAN] {
        assert!(error_message(run(scale)).contains("parameters"));
    }
    let huge = rgb_u8_to_patches_e4m3(
        &ctx,
        &images,
        &patches(DType::F8E4M3, &[8, 588]),
        1,
        1 << 40,
        1,
        ImageLayout::Nhwc,
        0.5f32.to_bits(),
    );
    assert!(error_message(huge).contains("raw image size overflow"));
}

#[test]
fn merged_patches_check_normalization_and_operands() {
    let ctx = context();
    let channels = |value: f32| Channels {
        red: value.to_bits(),
        green: value.to_bits(),
        blue: value.to_bits(),
    };
    let normalization = Normalization {
        rescale_factor: (1.0f64 / 255.0).to_bits(),
        mean: channels(0.5),
        deviation: channels(0.25),
    };
    let images = span(0x1000, 2 * 3 * 252 * 252);
    let run = |images: &CudaBuffer, dims: &[usize], normalization: Normalization| {
        rgb_u8_to_normalized_temporal_merged_patches_bf16(
            &ctx,
            images,
            &patches(DType::BF16, dims),
            2,
            252,
            14,
            2,
            2,
            ImageLayout::Nhwc,
            normalization,
        )
    };
    let launch = run(&images, &[648, 1176], normalization).unwrap();
    assert_eq!(launch.dimensions.patch_rows, 648);
    assert!(error_message(run(&span(0x1000, 3), &[648, 1176], normalization)).contains("images"));
    assert!(error_message(run(&images, &[648, 1175], normalization)).contains("patches"));
    for bad in [
        Normalization {
            rescale_factor: 0,
            ..normalization
        },
        Normalization {
            rescale_factor: f64::NAN.to_bits(),
            ..normalization
        },
        Normalization {
            mean: channels(f32::INFINITY),
            ..normalization
        },
        Normalization {
            deviation: channels(0.0),
            ..normalization
        },
    ] {
        assert!(error_message(run(&images, &[648, 1176], bad)).contains("parameters"));
    }
    let negative_mean = Normalization {
        mean: channels(-0.5),
        ..normalization
    };
    assert!(run(&images, &[648, 1176], negative_mean).is_ok());
}
