use apxinf_cuda::context::{CudaContext, CudaLibraryVersions, CudaStream};
use apxinf_cuda::cublas::CublasHandle;
use apxinf_cuda::device_caps::{CudaArchFamily, CudaDeviceCaps};
use apxinf_cuda::error::Error;
use apxinf_cuda::kernels::moe::{
    gather_rows_into, routed_residual_rms_f16_weight_into, routed_residual_rms_into,
    router_topk_into, silu_mul_rows_f16_lut_into, silu_mul_rows_f16_rounded_into,
    silu_mul_rows_into, weighted_gather_sum_into, RoutedOperands, SiluBf16Table, SwigluKernel,
    SILU_TABLE_BYTES,
};
use apxinf_cuda::tuning::{TuningMode, TuningSession};
use apxinf_cuda::types::CudaBuffer;

fn context() -> CudaContext {
    CudaContext::new(
        0,
        CudaStream { handle: 7 },
        CublasHandle { handle: 9 },
        CudaDeviceCaps {
            sm: 110,
            compute_major: 11,
            multiprocessor_count: 20,
            arch_family: CudaArchFamily::Sm100,
        },
        CudaLibraryVersions::from_reported(13_000, 130_000).unwrap(),
        TuningSession {
            generation: 4,
            mode: TuningMode::Inference,
            records: vec![],
        },
    )
}

fn span(address: usize, len: usize) -> CudaBuffer {
    CudaBuffer {
        address,
        len,
        device: 0,
    }
}

#[test]
fn router_keeps_at_most_thirty_two_of_its_experts() {
    let ctx = context();
    let run = |tokens: usize, experts: usize, k: usize| {
        router_topk_into(
            &ctx,
            &span(0x10, 1 << 20),
            tokens,
            experts,
            k,
            true,
            &span(0x20, 1 << 20),
            &span(0x30, 1 << 20),
        )
    };
    let launch = run(3, 128, 8).unwrap();
    assert_eq!((launch.tokens, launch.experts, launch.k), (3, 128, 8));
    assert!(launch.renormalize);
    for (tokens, experts, k) in [
        (0, 128, 8),
        (3, 0, 1),
        (3, 257, 8),
        (3, 128, 0),
        (3, 4, 5),
        (3, 128, 33),
    ] {
        assert!(matches!(run(tokens, experts, k), Err(Error::Other(_))));
    }
    assert_eq!(
        router_topk_into(
            &ctx,
            &span(0x10, 3 * 128 * 2),
            3,
            128,
            8,
            false,
            &span(0x20, 95),
            &span(0x30, 96),
        ),
        Err(Error::BufferLength {
            operation: "MoE router",
            name: "topk_idx",
            required: 96,
            got: 95,
        })
    );
}

#[test]
fn gather_and_combine_size_their_rows() {
    let ctx = context();
    assert!(gather_rows_into(&ctx, &span(0x10, 160), 10, &span(0x20, 12), 3, 8, &span(0x30, 48))
        .is_ok());
    assert!(gather_rows_into(&ctx, &span(0x10, 160), 10, &span(0x20, 12), 3, 8, &span(0x30, 47))
        .is_err());
    assert!(gather_rows_into(&ctx, &span(0x10, 160), 0, &span(0x20, 12), 3, 8, &span(0x30, 48))
        .is_err());
    let launch = weighted_gather_sum_into(
        &ctx,
        &span(0x10, 3 * 2 * 8 * 2),
        &span(0x20, 24),
        &span(0x30, 24),
        3,
        2,
        8,
        &span(0x40, 48),
    )
    .unwrap();
    assert_eq!((launch.tokens, launch.k, launch.cols), (3, 2, 8));
    assert!(weighted_gather_sum_into(
        &ctx,
        &span(0x10, 3 * 2 * 8 * 2 - 1),
        &span(0x20, 24),
        &span(0x30, 24),
        3,
        2,
        8,
        &span(0x40, 48),
    )
    .is_err());
}

#[test]
fn routed_residual_checks_geometry_and_epsilon() {
    let ctx = context();
    let operands = RoutedOperands {
        x: span(0x10, 3 * 8 * 2),
        y: span(0x20, 6 * 8 * 2),
        ids: span(0x30, 24),
        router_weights: span(0x40, 24),
        norm_weight: span(0x50, 16),
        output: span(0x60, 48),
    };
    let eps = 1e-6f32.to_bits();
    let launch = routed_residual_rms_into(&ctx, &operands, 8, 3, 2, eps, true).unwrap();
    assert!(!launch.half_weight && launch.input_half);
    assert!(
        routed_residual_rms_f16_weight_into(&ctx, &operands, 8, 3, 2, eps, false)
            .unwrap()
            .half_weight
    );
    for (cols, rows, topk, bits) in [
        (0, 3, 2, eps),
        (8193, 3, 2, eps),
        (8, 0, 2, eps),
        (8, 3, 0, eps),
        (8, 3, 2, 0),
        (8, 3, 2, (-1f32).to_bits()),
        (8, 3, 2, f32::NAN.to_bits()),
    ] {
        assert!(matches!(
            routed_residual_rms_into(&ctx, &operands, cols, rows, topk, bits, true),
            Err(Error::Other(_))
        ));
    }
    let short = RoutedOperands {
        y: span(0x20, 6 * 8 * 2 - 1),
        ..operands
    };
    assert!(matches!(
        routed_residual_rms_into(&ctx, &short, 8, 3, 2, eps, true),
        Err(Error::BufferLength { name: "y", .. })
    ));
}

#[test]
fn swiglu_reads_two_halves() {
    let ctx = context();
    let launch = silu_mul_rows_into(&ctx, &span(0x10, 96), 3, 8, &span(0x20, 48)).unwrap();
    assert_eq!(launch.kernel, SwigluKernel::Bf16);
    assert!(silu_mul_rows_into(&ctx, &span(0x10, 95), 3, 8, &span(0x20, 48)).is_err());
    assert_eq!(
        silu_mul_rows_f16_rounded_into(&ctx, &span(0x10, 96), &span(0x20, 48), 3, 8)
            .unwrap()
            .kernel,
        SwigluKernel::F16Rounded
    );
    assert!(matches!(
        silu_mul_rows_f16_rounded_into(&ctx, &span(0x10, 96), &span(0x20, 48), usize::MAX, 8),
        Err(Error::Other("FP16 SwiGLU size overflow"))
    ));
    assert!(matches!(
        silu_mul_rows_f16_rounded_into(&ctx, &span(0x10, 96), &span(0x20, 48), 0, 8),
        Err(Error::Other("FP16 SwiGLU invalid geometry"))
    ));
    assert_eq!(SILU_TABLE_BYTES, 65536 * 4);
    let table = SiluBf16Table::new(span(0x50, SILU_TABLE_BYTES));
    let launch =
        silu_mul_rows_f16_lut_into(&ctx, &span(0x10, 96), &span(0x20, 48), &table, 3, 8).unwrap();
    assert_eq!(launch.kernel, SwigluKernel::F16Table(0x50));
    let short = SiluBf16Table::new(span(0x50, SILU_TABLE_BYTES - 1));
    assert!(
        silu_mul_rows_f16_lut_into(&ctx, &span(0x10, 96), &span(0x20, 48), &short, 3, 8).is_err()
    );
}
