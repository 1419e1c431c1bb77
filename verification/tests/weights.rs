use apxinf_cuda::context::{CudaContext, CudaLibraryVersions, CudaStream};
use apxinf_cuda::cublas::CublasHandle;
use apxinf_cuda::device_caps::{CudaArchFamily, CudaDeviceCaps};
use apxinf_cuda::error::Error;
use apxinf_cuda::kernels::gemm::packed::{
    build, enabled, gemv, min_packed_width, PackedCache, PackedKey, PackedStep, PackedWeight,
};
use apxinf_cuda::kernels::gemm::tiles::{check_offsets, cut};
use apxinf_cuda::kernels::gemm::w4a16::{
    dequant_bf16_into, dequant_range_bf16_into, gemv_partial_into, gemv_partial_repacked_into,
    grouped_bf16_into, partial_bytes, partial_residual_rms_f16_weight_into,
    partial_residual_rms_into, partial_residual_rms_rows_into, partial_silu_mul_into,
    partial_sum_into, AwqWeightView, BlockedWeights, GemvKernel, GemvSlots, GroupedRows,
};
use apxinf_cuda::kernels::gemm::w4a16_marlin::{
    grouped_into, indexed_into, Weights, Workspace, WorkspaceLayout,
};
use apxinf_cuda::kernels::gemm::w8a8::{
    gemm_w8a8, gemm_w8a8_advance, gemm_w8a8_launch, gemm_w8a8_start, launch_w8a8_tactic,
    W8A8Buffers, W8A8Launch, W8A8Layout, W8A8ScaleMode, W8A8Stage, W8A8WeightView,
};
use apxinf_cuda::tuning::{BuildFeatures, TacticBackend, TacticId, TuningMode, TuningSession};
use apxinf_cuda::types::{CudaBuffer, CudaDeviceAddress, DType, Device, Tensor};

fn context() -> CudaContext {
    CudaContext::new(
        0,
        CudaStream { handle: 7 },
        CublasHandle { handle: 9 },
        CudaDeviceCaps {
            sm: 110,
            compute_major: 11,
            multiprocessor_count: 20,
            arch_family: CudaArchFamily::Sm100,
        },
        CudaLibraryVersions::from_reported(13_000, 130_000).unwrap(),
        TuningSession {
            generation: 4,
            mode: TuningMode::Inference,
            records: vec![],
        },
    )
}

fn span(address: usize, len: usize) -> CudaBuffer {
    CudaBuffer {
        address,
        len,
        device: 0,
    }
}

fn tensor(dtype: DType, dims: &[usize], address: usize) -> Tensor {
    let elements: usize = dims.iter().product();
    Tensor {
        dtype,
        device: Device::Cuda(0),
        dims: dims.to_vec(),
        buffer: span(address, elements * dtype.size_in_bytes()),
    }
}

fn other<T: std::fmt::Debug>(result: Result<T, Error>) -> String {
    match result.unwrap_err() {
        Error::Other(text) => text.to_string(),
        error => panic!("unexpected error {error:?}"),
    }
}

const EPS: u32 = 0x358637bd;

/// Two experts of 256 x 512 with groups of 128.
fn experts() -> AwqWeightView {
    AwqWeightView {
        qweight: span(0x1000, 2 * 256 * 64 * 4),
        qzeros: span(0x10_0000, 2 * 2 * 64 * 4),
        scales: span(0x20_0000, 2 * 2 * 512 * 2),
        in_dim: 256,
        out_dim: 512,
        group_size: 128,
        experts: 2,
        stride_q: 256 * 64,
        stride_z: 2 * 64,
        stride_s: 2 * 512,
    }
}

#[test]
fn tiles_cover_every_expert_row() {
    let tiles = cut(&[0, 70, 70, 130], 64);
    let parts: Vec<(usize, usize, usize)> =
        tiles.iter().map(|tile| (tile.expert, tile.row, tile.end)).collect();
    assert_eq!(parts, vec![(0, 0, 70), (0, 64, 70), (2, 70, 130)]);
    assert!(check_offsets(&[0, 5, 5]));
    assert!(!check_offsets(&[0]));
    assert!(!check_offsets(&[1, 5]));
    assert!(!check_offsets(&[0, 5, 4]));
}

#[test]
fn grouped_schedule_is_flattened() {
    let ctx = context();
    let (rows, words) = GroupedRows::new(&ctx, &[0, 70, 100], &span(0x9000, 36)).unwrap();
    assert_eq!(words, vec![0, 0, 70, 0, 64, 70, 1, 70, 100]);
    assert_eq!((rows.count, rows.rows, rows.experts), (3, 100, 2));
    assert!(GroupedRows::new(&ctx, &[0, 70, 100], &span(0x9000, 35)).is_err());
    assert!(other(GroupedRows::new(&ctx, &[0, 0], &span(0x9000, 36))).contains("schedule"));
    assert!(other(GroupedRows::new(&ctx, &[0, 9, 3], &span(0x9000, 36))).contains("offsets"));
    assert!(other(GroupedRows::new(&ctx, &[0, 1 << 31], &span(0x9000, 36))).contains("offsets"));

    let launch = grouped_bf16_into(
        &ctx,
        &span(0x30_0000, 100 * 256 * 2),
        experts(),
        &rows,
        &span(0x40_0000, 100 * 512 * 2),
    )
    .unwrap();
    assert_eq!((launch.count, launch.in_dim, launch.out_dim), (3, 256, 512));
    assert_eq!(launch.stride_q, 256 * 64);
    let one = AwqWeightView {
        experts: 1,
        ..experts()
    };
    assert!(other(grouped_bf16_into(
        &ctx,
        &span(0x30_0000, 1 << 20),
        one,
        &rows,
        &span(0x40_0000, 1 << 20)
    ))
    .contains("unsupported dimensions"));
}

#[test]
fn weight_views_are_validated() {
    let ctx = context();
    let view = experts();
    assert_eq!((view.packed_cols(), view.groups()), (64, 2));
    assert_eq!((view.qweight_words(), view.qzeros_words()), (16384, 128));
    assert_eq!(view.scales_elements(), 1024);
    assert_eq!(view.validate(&ctx, "op"), Ok(()));
    let single = AwqWeightView::single(view.qweight, view.qzeros, view.scales, 256, 512, 128);
    assert_eq!((single.experts, single.stride_q), (1, 0));
    for bad in [
        AwqWeightView { in_dim: 0, ..view },
        AwqWeightView { out_dim: 12, ..view },
        AwqWeightView { group_size: 0, ..view },
        AwqWeightView { group_size: 100, ..view },
        AwqWeightView { experts: 0, ..view },
        AwqWeightView { stride_q: 16383, ..view },
    ] {
        assert!(matches!(bad.validate(&ctx, "op"), Err(Error::Operation { operation: "op", .. })));
    }
    let short = AwqWeightView {
        scales: span(0x20_0000, 2 * 2 * 512 * 2 - 1),
        ..view
    };
    assert!(matches!(
        short.validate(&ctx, "op"),
        Err(Error::BufferLength { name: "scales", .. })
    ));
}

#[test]
fn dequantization_starts_at_the_first_expert() {
    let ctx = context();
    let whole = dequant_bf16_into(&ctx, experts(), &span(0x40_0000, 2 * 256 * 512 * 2)).unwrap();
    assert_eq!((whole.qweight_offset, whole.count), (0, 2));
    let last =
        dequant_range_bf16_into(&ctx, experts(), 1, 1, &span(0x40_0000, 256 * 512 * 2)).unwrap();
    assert_eq!(last.qweight_offset, 256 * 64 * 4);
    assert_eq!(last.qzeros_offset, 2 * 64 * 4);
    assert_eq!(last.scales_offset, 2 * 512 * 2);
    assert_eq!(last.output_stride, 256 * 512);
    assert!(dequant_range_bf16_into(&ctx, experts(), 1, 2, &span(0x40_0000, 1 << 20)).is_err());
    assert!(dequant_range_bf16_into(&ctx, experts(), 1, 0, &span(0x40_0000, 1 << 20)).is_err());
}

#[test]
fn gemv_picks_its_kernel() {
    let ctx = context();
    let slots = GemvSlots {
        slots: 2,
        per_slot_activation: true,
        ..GemvSlots::dense()
    };
    let x = span(0x30_0000, 2 * 256 * 2);
    let partial = span(0x40_0000, partial_bytes(512, 4, 2));
    assert_eq!(partial.len, 512 * 4 * 2 * 4);
    let launch = gemv_partial_into(&ctx, &x, experts(), slots, 4, &partial).unwrap();
    assert_eq!((launch.kernel, launch.x_stride), (GemvKernel::Plain, 256));
    assert_eq!((launch.splits, launch.slots, launch.packed_cols), (4, 2, 64));

    let plan = BlockedWeights::repack(&ctx, experts(), true).unwrap();
    assert_eq!(plan.bytes, 2 * 256 * 64 * 4);
    let blocked = BlockedWeights::from_repack(&plan, span(0x70_0000, plan.bytes));
    let run = |blocked: Option<BlockedWeights>, pair: Option<&str>, magic: Option<&str>| {
        gemv_partial_repacked_into(
            &ctx,
            &x,
            experts(),
            blocked,
            slots,
            4,
            &partial,
            pair,
            magic,
        )
    };
    assert_eq!(run(Some(blocked), None, None).unwrap().kernel, GemvKernel::Blocked);
    assert_eq!(run(Some(blocked), None, None).unwrap().qweight, 0x70_0000);
    assert_eq!(run(Some(blocked), Some("1"), Some("1")).unwrap().kernel, GemvKernel::PairBlocked);
    assert_eq!(run(Some(blocked), Some("0"), Some("1")).unwrap().kernel, GemvKernel::MagicBlocked);
    assert_eq!(run(None, None, Some("1")).unwrap().kernel, GemvKernel::Magic);
    assert_eq!(other(run(None, Some("1"), None)), "GEMV_PAIR requires blocked weights");
    let stale = BlockedWeights {
        source_address: 0x5000,
        ..blocked
    };
    assert_eq!(other(run(Some(stale), None, None)), "blocked AWQ source mismatch");
}

#[test]
fn gemv_slots_are_backed_by_experts_or_ids() {
    let ctx = context();
    let x = span(0x30_0000, 256 * 2);
    let partial = span(0x40_0000, partial_bytes(512, 1, 3));
    let three = GemvSlots {
        slots: 3,
        ..GemvSlots::dense()
    };
    assert!(gemv_partial_into(&ctx, &x, experts(), three, 1, &partial).is_err());
    let ids = GemvSlots {
        expert_ids: Some(CudaDeviceAddress {
            address: 0x80_0000,
            len: 12,
            device: 0,
        }),
        ..three
    };
    let launch = gemv_partial_into(&ctx, &x, experts(), ids, 1, &partial).unwrap();
    assert_eq!(launch.expert_ids, Some(0x80_0000));
    assert_eq!(launch.x_stride, 0);
    let short = GemvSlots {
        slot_scale: Some(CudaDeviceAddress {
            address: 0x90_0000,
            len: 11,
            device: 0,
        }),
        ..ids
    };
    assert!(matches!(
        gemv_partial_into(&ctx, &x, experts(), short, 1, &partial),
        Err(Error::Address { name: "slot_scale", .. })
    ));
    assert!(gemv_partial_into(&ctx, &x, experts(), ids, 0, &partial).is_err());
}

#[test]
fn reused_storage_swaps_source_and_copy() {
    let ctx = context();
    let plan = BlockedWeights::repack_reusing_storage(&ctx, experts()).unwrap();
    assert!(plan.reuse_source && plan.mapped);
    let weights = BlockedWeights::from_repack(&plan, span(0x70_0000, plan.bytes));
    assert_eq!(weights.q, experts().qweight);
    assert_eq!(weights.source_address, 0x70_0000);
    let narrow = AwqWeightView {
        out_dim: 8,
        stride_q: 256,
        ..experts()
    };
    assert!(BlockedWeights::repack(&ctx, narrow, false).is_err());
}

#[test]
fn partial_reductions_size_their_buffers() {
    let ctx = context();
    let sum = partial_sum_into(&ctx, &span(0x10, 8 * 3 * 4), 3, 8, &span(0x20, 16)).unwrap();
    assert_eq!((sum.out_dim, sum.count), (8, 3));
    assert!(partial_sum_into(&ctx, &span(0x10, 8 * 3 * 4 - 1), 3, 8, &span(0x20, 16)).is_err());
    assert!(partial_sum_into(&ctx, &span(0x10, 96), 0, 8, &span(0x20, 16)).is_err());
    let silu =
        partial_silu_mul_into(&ctx, &span(0x10, 16 * 3 * 2 * 4), 2, 3, 8, &span(0x20, 32)).unwrap();
    assert_eq!((silu.inter, silu.splits, silu.slots), (8, 3, 2));
    assert!(partial_silu_mul_into(&ctx, &span(0x10, 384), 2, 0, 8, &span(0x20, 32)).is_err());
}

#[test]
fn residual_norm_has_a_form_for_one_row() {
    let ctx = context();
    let row = span(0x10, 16);
    let one =
        partial_residual_rms_into(&ctx, &row, &span(0x20, 8 * 3 * 4), &row, &row, 8, 3, EPS)
            .unwrap();
    assert_eq!((one.rows, one.f16_weight), (None, false));
    let same = partial_residual_rms_rows_into(
        &ctx,
        &row,
        &span(0x20, 8 * 3 * 4),
        &row,
        &row,
        8,
        1,
        3,
        EPS,
    )
    .unwrap();
    assert_eq!(same, one);
    let rows = partial_residual_rms_rows_into(
        &ctx,
        &span(0x10, 32),
        &span(0x20, 2 * 8 * 3 * 4),
        &row,
        &span(0x30, 32),
        8,
        2,
        3,
        EPS,
    )
    .unwrap();
    assert_eq!(rows.rows, Some(2));
    assert!(
        partial_residual_rms_f16_weight_into(
            &ctx,
            &row,
            &span(0x20, 8 * 3 * 4),
            &row,
            &row,
            8,
            3,
            EPS
        )
        .unwrap()
        .f16_weight
    );
    for (cols, count, eps) in [(0, 3, EPS), (8193, 3, EPS), (8, 0, EPS), (8, 3, 0)] {
        assert!(partial_residual_rms_into(
            &ctx,
            &row,
            &span(0x20, 1 << 20),
            &row,
            &row,
            cols,
            count,
            eps
        )
        .is_err());
    }
}

#[test]
fn marlin_schedule_pads_each_expert() {
    let ctx = context();
    let layout = WorkspaceLayout::new(&ctx, 100, 4, 32, true, None).unwrap();
    assert_eq!(layout.ids, (100 + 4 * 32) * 4);
    assert_eq!(layout.experts, 8 * 4);
    assert_eq!(layout.count, 16);
    assert_eq!(layout.blocks, 40);
    assert_eq!(layout.locks, 40 * 2 * 4);
    assert_eq!(layout.temporary, 40 * 2 * 32 * 256 * 4);
    let workspace = Workspace::new(
        layout,
        span(0x1000, layout.ids),
        span(0x2000, layout.experts),
        span(0x3000, layout.count),
        span(0x4000, layout.route_counts),
        span(0x5000, layout.route_offsets),
        span(0x6000, layout.temporary),
        span(0x7000, layout.locks),
    );
    let (rows, schedule) = workspace.schedule(&[0, 33, 33, 40]).unwrap();
    assert_eq!((rows.rows, rows.experts), (40, 3));
    assert_eq!(schedule.experts, vec![0, 0, 2]);
    assert_eq!(schedule.count, 96);
    assert_eq!(schedule.ids[32], 32);
    assert_eq!(schedule.ids[33], 40);
    assert_eq!(schedule.ids[64], 33);
    assert!(schedule.ids.len() * 4 <= layout.ids);
    for row in 0..40 {
        assert_eq!(schedule.ids.iter().filter(|&&id| id == row).count(), 1);
    }
    assert!(other(workspace.schedule(&[0, 101])).contains("exceeds workspace"));
    assert!(other(workspace.schedule(&[0, 0])).contains("exceeds workspace"));
    assert!(other(workspace.schedule(&[0, 1, 1, 1, 1, 1])).contains("offsets"));

    let (routed, launch) = workspace.permute(&ctx, &span(0x8000, 160), 40, 4).unwrap();
    assert_eq!((routed.rows, routed.experts), (40, 4));
    assert_eq!((launch.slots, launch.tile_m), (40, 32));
    assert!(workspace.permute(&ctx, &span(0x8000, 400), 101, 4).is_err());
    assert!(workspace.permute(&ctx, &span(0x8000, 160), 40, 5).is_err());
}

#[test]
fn marlin_variants_are_tuned_tiles() {
    let ctx = context();
    let layout = |tile: usize, half: bool, tune: Option<&str>| {
        WorkspaceLayout::new(&ctx, 100, 4, tile, half, tune)
    };
    assert_eq!(layout(64, true, Some("n128")).unwrap().tile_m, 32);
    assert_eq!(layout(64, true, Some("n128")).unwrap().blocks, 120);
    assert_eq!(layout(64, true, Some("n256")).unwrap().variant, 2);
    assert_eq!(layout(64, true, Some("constants")).unwrap().variant, 3);
    assert_eq!(layout(64, false, Some("other")).unwrap().variant, 0);
    assert!(other(layout(32, true, Some("constants"))).contains("tile size 64"));
    assert!(other(layout(64, false, Some("n128"))).contains("FP16 compute"));
    assert!(other(layout(48, true, None)).contains("tile size"));
    assert!(other(WorkspaceLayout::new(&ctx, usize::MAX, 4, 64, true, None)).contains("overflow"));
    assert!(other(WorkspaceLayout::new(&ctx, 1 << 31, 4, 64, true, None)).contains("too large"));
}

#[test]
fn marlin_product_expands_routed_slots() {
    let ctx = context();
    let plan = Weights::repack_with_silu(&ctx, experts(), false, true).unwrap();
    assert_eq!(plan.q_bytes, 2 * 16384 * 4);
    assert_eq!(plan.scratch_bytes, Some(16384 * 4));
    assert_eq!(Weights::repack(&ctx, experts(), false).unwrap().scratch_bytes, None);
    let weights = Weights::from_repack(
        &plan,
        span(0x10_0000, plan.q_bytes),
        span(0x20_0000, plan.z_bytes),
        span(0x30_0000, plan.s_bytes),
    );
    let layout = WorkspaceLayout::new(&ctx, 100, 2, 64, true, None).unwrap();
    let workspace = Workspace::new(
        layout,
        span(0x1000, layout.ids),
        span(0x2000, layout.experts),
        span(0x3000, layout.count),
        span(0x4000, layout.route_counts),
        span(0x5000, layout.route_offsets),
        span(0x6000, layout.temporary),
        span(0x7000, layout.locks),
    );
    let (rows, _) = workspace.schedule(&[0, 30, 40]).unwrap();
    let launch = indexed_into(
        &ctx,
        &span(0x50_0000, 5 * 256 * 2),
        &weights,
        &rows,
        &span(0x60_0000, 40 * 256 * 2),
        8,
    )
    .unwrap();
    assert_eq!((launch.rows, launch.n, launch.k, launch.top_k), (5, 512, 256, 8));
    assert_eq!((launch.fused_silu, launch.use_f16), (1, 1));
    assert!(other(indexed_into(
        &ctx,
        &span(0x50_0000, 1 << 20),
        &weights,
        &rows,
        &span(0x60_0000, 1 << 20),
        7
    ))
    .contains("top-k"));
    assert!(grouped_into(
        &ctx,
        &span(0x50_0000, 5 * 256 * 2),
        &weights,
        &rows,
        &span(0x60_0000, 1 << 20)
    )
    .is_err());
    let narrow = AwqWeightView {
        in_dim: 128,
        stride_q: 128 * 64,
        stride_z: 64,
        stride_s: 512,
        ..experts()
    };
    assert!(Weights::repack(&ctx, narrow, false).is_err());
}

#[test]
fn w8a8_falls_back_to_the_vendor_once() {
    let ctx = context();
    let build = BuildFeatures {
        cutlass_gemm: false,
        cutlass_bf16_sm89: false,
        cutlass_int8_sm80: true,
    };
    let scales = tensor(DType::F32, &[16], 0x900);
    let weight = W8A8WeightView {
        values_i8: span(0x800, 16 * 32),
        scales_f32: &scales,
        input_dim: 32,
        output_dim: 16,
        scale_mode: W8A8ScaleMode::DynamicRowPerOutputChannel,
        layout: W8A8Layout::OutputMajor,
    };
    let activation = tensor(DType::BF16, &[4, 32], 0x100);
    let request = gemm_w8a8(&build, &ctx, &activation, weight).unwrap();
    assert_eq!(request.quantized_bytes, 128);
    assert_eq!(request.row_scale_bytes, 16);
    assert_eq!(request.accumulator_bytes, 4 * 16 * 4);
    assert_eq!(request.output_bytes, 4 * 16 * 2);
    // The default tile is for the SM80 family.
    assert_eq!(request.default.backend, TacticBackend::Vendor);
    assert!(gemm_w8a8(&build, &ctx, &tensor(DType::BF16, &[4, 31], 0x100), weight).is_err());
    assert!(gemm_w8a8(&build, &ctx, &tensor(DType::F16, &[4, 32], 0x100), weight).is_err());

    let buffers = W8A8Buffers {
        quantized: span(0x10, 128),
        weights: weight.values_i8,
        row_scales: span(0x20, 16),
        weight_scales: scales.buffer,
        accumulators: span(0x30, 256),
        output: span(0x40, 128),
    };
    let cutlass = TacticId {
        backend: TacticBackend::Cutlass,
        value: 0,
    };
    let stage = gemm_w8a8_start(&build, &request.key, cutlass);
    assert_eq!(stage, W8A8Stage::Cutlass);
    assert!(matches!(
        gemm_w8a8_launch(ctx.cublas(), &request.key, &buffers, stage),
        Ok(Some(W8A8Launch::Cutlass { .. }))
    ));
    let stage = gemm_w8a8_advance(stage, false);
    assert_eq!(stage, W8A8Stage::Fallback);
    assert_eq!(gemm_w8a8_launch(ctx.cublas(), &request.key, &buffers, stage), Ok(None));
    let stage = gemm_w8a8_advance(stage, true);
    assert_eq!(stage, W8A8Stage::Vendor);
    assert!(matches!(
        gemm_w8a8_launch(ctx.cublas(), &request.key, &buffers, stage),
        Ok(Some(W8A8Launch::Vendor { .. }))
    ));
    assert_eq!(gemm_w8a8_advance(stage, true), W8A8Stage::Done);
    assert_eq!(gemm_w8a8_advance(stage, false), W8A8Stage::Failed);
    let lt = TacticId {
        backend: TacticBackend::CublasLt,
        value: 0,
    };
    assert!(launch_w8a8_tactic(&build, ctx.cublas(), &request.key, &buffers, lt).is_err());
}

#[test]
fn packed_weights_take_thirteen_bits() {
    let sizes = build(256, 1000).unwrap();
    assert_eq!((sizes.lo, sizes.off_lo, sizes.off_hi), (256_000, 128_000, 32_000));
    assert_eq!((sizes.base, sizes.reject), (2000, 4));
    let total = sizes.lo + sizes.off_lo + sizes.off_hi + sizes.base;
    assert_eq!(total * 16, 13 * 256_000 * 2 + 256_000 / 8);
    assert_eq!(build(255, 1000), None);
    assert!(enabled(Some("1")) && enabled(Some("on")) && enabled(Some("true")));
    assert!(!enabled(Some("yes")) && !enabled(None));
    assert_eq!(min_packed_width(None), 36864);
    assert_eq!(min_packed_width(Some("+128")), 128);
    assert_eq!(min_packed_width(Some("wide")), 36864);
}

#[test]
fn packed_copy_is_built_once() {
    let weight = span(0x1000, 256 * 1000 * 2);
    let (activation, output) = (span(0x10, 512), span(0x20, 2000));
    let mut cache = PackedCache::new();
    assert_eq!(
        gemv(&cache, 1001, &weight, &activation, &output, 256, 1000),
        PackedStep::Decline
    );
    assert_eq!(
        gemv(&cache, 1000, &weight, &activation, &output, 256, 1000),
        PackedStep::Build
    );
    let key = PackedKey {
        address: 0x1000,
        k: 256,
        n: 1000,
    };
    let packed = PackedWeight {
        lo: span(0x5000, 256_000),
        off_lo: span(0x6000, 128_000),
        off_hi: span(0x7000, 32_000),
        base: span(0x8000, 2000),
        k: 256,
        n: 1000,
    };
    cache.insert(key, packed);
    assert_eq!(cache.find(key), Some(packed));
    assert_eq!(
        gemv(&cache, 1000, &weight, &activation, &output, 256, 1000),
        PackedStep::Launch {
            lo: 0x5000,
            off_lo: 0x6000,
            off_hi: 0x7000,
            base: 0x8000,
            activation: 0x10,
            output: 0x20,
            n: 1000,
            k: 256,
        }
    );
}

#[test]
fn repacked_gemv_keeps_its_partial_sums() {
    let ctx = context();
    let slots = GemvSlots {
        slots: 2,
        ..GemvSlots::dense()
    };
    let x = span(0x30_0000, 256 * 2);
    let partial = span(0x40_0000, partial_bytes(512, 4, 2));
    let plain = gemv_partial_into(&ctx, &x, experts(), slots, 4, &partial).unwrap();
    let plan = BlockedWeights::repack(&ctx, experts(), true).unwrap();
    let blocked = BlockedWeights::from_repack(&plan, span(0x70_0000, plan.bytes));
    let mut repacked = gemv_partial_repacked_into(
        &ctx,
        &x,
        experts(),
        Some(blocked),
        slots,
        4,
        &partial,
        Some("1"),
        None,
    )
    .unwrap();
    assert_ne!(repacked, plain);
    repacked.kernel = plain.kernel;
    repacked.qweight = plain.qweight;
    assert_eq!(repacked, plain);
}

#[test]
fn a_workspace_holds_its_largest_routing() {
    let ctx = context();
    let layout = WorkspaceLayout::new(&ctx, 100, 4, 32, true, None).unwrap();
    let workspace = Workspace::new(
        layout,
        span(0x1000, layout.ids),
        span(0x2000, layout.experts),
        span(0x3000, layout.count),
        span(0x4000, layout.route_counts),
        span(0x5000, layout.route_offsets),
        span(0x6000, layout.temporary),
        span(0x7000, layout.locks),
    );
    assert!(workspace.permute(&ctx, &span(0x8000, 400), 100, 4).is_ok());
    assert!(matches!(
        workspace.permute(&ctx, &span(0x8000, 399), 100, 4),
        Err(Error::BufferLength {
            name: "ids",
            required: 400,
            got: 399,
            ..
        })
    ));
}
