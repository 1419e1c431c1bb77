use apxinf_cuda::context::{CudaContext, CudaLibraryVersions, CudaStream};
use apxinf_cuda::cublas::{CublasCall, CublasHandle, GemmExCall, Scalar, Stored};
use apxinf_cuda::device_caps::{CudaArchFamily, CudaDeviceCaps};
use apxinf_cuda::error::Error;
use apxinf_cuda::ffi::cublas::{cublasComputeType_t, cublasOperation_t, cudaDataType_t};
use apxinf_cuda::kernels::attention::bf16::{
    causal_gqa_bf16, causal_gqa_prefill_bf16, check_fmha, mha_bf16, mqa_bf16, GqaRoute, MhaRoute,
    MqaKernel, MqaRoute,
};
use apxinf_cuda::kernels::attention::composed::{
    chunk_steps, composed_gqa_bf16, round_output, widen_operands, Cast, ComposedBuffers,
    ComposedStep, RowSoftmax,
};
use apxinf_cuda::kernels::attention::dense::{
    noncausal, noncausal_strided_qkv, vision, DenseRoute, VisionKernel,
};
use apxinf_cuda::kernels::attention::fa2::{
    fa2_attention, fa2_attention_splitkv, fa2_splitkv_enabled, AttentionExtents, Fa2Kernel,
};
use apxinf_cuda::kernels::attention::features::{
    vision_fa2_enabled, AttentionBuild, AttentionSwitches,
};
use apxinf_cuda::kernels::attention::fp16::{
    mha_f16, mha_packed_qkv_bias_f16, mqa_cached_f16, mqa_f16, mqa_f16_e4m3_522,
    mqa_prefix_suffix_f16, PackedRoute,
};
use apxinf_cuda::kernels::attention::probe::{
    chunk_reads, set_attn_seg_map, take_attn_diag_lines, AttentionDiagnostics, ProbeLayer,
    ProbeRead,
};
use apxinf_cuda::kernels::attention::qkv::{
    split_gqa_qkv_mrope_cache_bf16, split_qkv_bias_bf16, split_vision_qkv_rope_bf16, CacheTarget,
    MropeShape,
};
use apxinf_cuda::kernels::attention::sdpa::{
    score_calls, sdpa, value_calls, LayerCache, SdpaRoute, SdpaShape,
};
use apxinf_cuda::kernels::attention::segmented::{
    segment_memory, segment_steps, segmented_mha_bf16, widen_segments, Segment, SegmentBuffers,
    SegmentShape, SegmentSoftmax, SegmentStep, SegmentedRoute,
};
use apxinf_cuda::kernels::attention::softmax::{
    causal_mask, flash_bf16_into, softmax, softmax_causal, softmax_f32_into, DecodeExtents, RowOp,
};
use apxinf_cuda::text::EnvironmentValue;
use apxinf_cuda::tuning::{TuningMode, TuningSession};
use apxinf_cuda::types::{CudaBuffer, CudaDeviceAddress, DType, Device, Tensor};

const ONE: u32 = 0x3f80_0000;

const NO_KERNELS: AttentionBuild = AttentionBuild {
    fa2_sm80: false,
    fa2_f16_sm100: false,
    fa2_head_special: false,
    fa2_direct_e4m3_sm100: false,
    cutlass_fmha: false,
};

const SM80: AttentionBuild = AttentionBuild {
    fa2_sm80: true,
    ..NO_KERNELS
};

const SM100: AttentionBuild = AttentionBuild {
    fa2_f16_sm100: true,
    fa2_head_special: true,
    fa2_direct_e4m3_sm100: true,
    ..NO_KERNELS
};

const DEFAULTS: AttentionSwitches = AttentionSwitches {
    prefill_legacy: false,
    vision_legacy: false,
    no_splitkv: false,
    composed_prefill: false,
    composed_decode: false,
    wide_scores: false,
    vision_fa2: true,
};

fn context() -> CudaContext {
    CudaContext::new(
        0,
        CudaStream { handle: 7 },
        CublasHandle { handle: 9 },
        CudaDeviceCaps {
            sm: 87,
            compute_major: 8,
            multiprocessor_count: 16,
            arch_family: CudaArchFamily::Sm80,
        },
        CudaLibraryVersions::from_reported(12_060, 120_604).unwrap(),
        TuningSession {
            generation: 0,
            mode: TuningMode::Inference,
            records: vec![],
        },
    )
}

fn span(address: usize, len: usize) -> CudaBuffer {
    CudaBuffer {
        address,
        len,
        device: 0,
    }
}

fn tensor(dtype: DType, dims: &[usize], address: usize) -> Tensor {
    let elements: usize = dims.iter().product();
    Tensor {
        dtype,
        device: Device::Cuda(0),
        dims: dims.to_vec(),
        buffer: span(address, elements * dtype.size_in_bytes()),
    }
}

fn bf16(dims: &[usize], address: usize) -> Tensor {
    tensor(DType::BF16, dims, address)
}

fn f16(dims: &[usize], address: usize) -> Tensor {
    tensor(DType::F16, dims, address)
}

fn other<T: std::fmt::Debug>(result: Result<T, Error>) -> String {
    match result.unwrap_err() {
        Error::Other(text) => text.to_string(),
        error => panic!("unexpected error {error:?}"),
    }
}

#[test]
fn composed_prefill_is_cut_into_chunks() {
    let q = bf16(&[1500, 4, 256], 0x1000);
    let k = bf16(&[2000, 2, 256], 0x2000);
    let plan = composed_gqa_bf16(&q, &k, &k, 2000, true);
    assert_eq!(plan.chunks, 2);
    assert_eq!(plan.query_bytes, 1500 * 4 * 256 * 4);
    assert_eq!(plan.key_bytes, 2000 * 2 * 256 * 4);
    assert_eq!(plan.scores_bytes, 4 * 1024 * 2000 * 4);
    assert_eq!(plan.output_bytes, 1500 * 4 * 256 * 2);
    assert_eq!((plan.query, plan.key, plan.value), (0x1000, 0x2000, 0x2000));

    let buffers = ComposedBuffers {
        query: span(0x1000_0000, plan.query_bytes),
        key: span(0x2000_0000, plan.key_bytes),
        value: span(0x3000_0000, plan.key_bytes),
        output: span(0x4000_0000, plan.query_bytes),
        scores: span(0x5000_0000, plan.scores_bytes),
    };
    let steps = chunk_steps(&context(), &plan.shape, &buffers, 1);
    assert_eq!(steps.len(), 4 + 1 + 4);
    // The second chunk holds rows 1024..1500 and sees all 2000 keys.
    assert_eq!(
        steps[3],
        ComposedStep::Product(CublasCall::GemmEx(GemmExCall {
            trans_a: cublasOperation_t::CUBLAS_OP_T,
            trans_b: cublasOperation_t::CUBLAS_OP_N,
            m: 2000,
            n: 476,
            k: 256,
            alpha: Scalar::InverseRoot(256),
            a: Stored {
                address: 0x2000_0000 + 256 * 4,
                dtype: cudaDataType_t::CUDA_R_32F,
                ld: 512,
            },
            b: Stored {
                address: 0x1000_0000 + ((1024 * 4 + 3) * 256) * 4,
                dtype: cudaDataType_t::CUDA_R_32F,
                ld: 1024,
            },
            beta: Scalar::Real(0),
            c: Stored {
                address: 0x5000_0000 + 3 * 2000 * 4,
                dtype: cudaDataType_t::CUDA_R_32F,
                ld: 8000,
            },
            compute: cublasComputeType_t::CUBLAS_COMPUTE_32F,
            algo: 99,
        }))
    );
    assert_eq!(
        steps[4],
        ComposedStep::Softmax(RowSoftmax {
            scores: 0x5000_0000,
            cols: 2000,
            rows: 476 * 4,
            kv_offset: 500 + 1024,
            heads: 4,
        })
    );
    match steps[5] {
        ComposedStep::Product(CublasCall::GemmEx(call)) => {
            assert_eq!((call.m, call.n, call.k), (256, 476, 2000));
            assert_eq!(call.alpha, Scalar::Real(ONE));
            assert_eq!(call.a.address, 0x3000_0000);
            assert_eq!(call.c.address, 0x4000_0000 + 1024 * 4 * 256 * 4);
        }
        step => panic!("unexpected step {step:?}"),
    }
}

#[test]
fn first_chunk_sees_only_earlier_keys() {
    let q = bf16(&[1500, 4, 256], 0x1000);
    let k = bf16(&[2000, 2, 256], 0x2000);
    let plan = composed_gqa_bf16(&q, &k, &k, 2000, true);
    let buffers = ComposedBuffers {
        query: span(0x1000_0000, plan.query_bytes),
        key: span(0x2000_0000, plan.key_bytes),
        value: span(0x3000_0000, plan.key_bytes),
        output: span(0x4000_0000, plan.query_bytes),
        scores: span(0x5000_0000, plan.scores_bytes),
    };
    match chunk_steps(&context(), &plan.shape, &buffers, 0)[4] {
        ComposedStep::Softmax(softmax) => {
            assert_eq!(softmax.cols, 500 + 1024);
            assert_eq!(softmax.kv_offset, 500);
            assert_eq!(softmax.rows, 1024 * 4);
        }
        step => panic!("unexpected step {step:?}"),
    }
    let open = composed_gqa_bf16(&q, &k, &k, 2000, false);
    match chunk_steps(&context(), &open.shape, &buffers, 0)[4] {
        ComposedStep::Softmax(softmax) => {
            assert_eq!(softmax.cols, 2000);
            assert_eq!(softmax.kv_offset, 2000);
        }
        step => panic!("unexpected step {step:?}"),
    }
}

#[test]
fn probe_fires_on_the_first_and_last_full_layer() {
    let mut diagnostics = AttentionDiagnostics::new();
    assert_eq!(diagnostics.begin(true, 1), None);
    assert_eq!(diagnostics.begin(false, 20), None);
    assert_eq!(diagnostics.begin(true, 20), Some(ProbeLayer::First));
    for _ in 1..7 {
        assert_eq!(diagnostics.begin(true, 20), None);
    }
    assert_eq!(diagnostics.begin(true, 20), Some(ProbeLayer::Last));
    assert_eq!(diagnostics.begin(true, 20), None);
    assert_eq!(ProbeLayer::First.tag(), 3);
    assert_eq!(ProbeLayer::Last.tag(), 31);
}

#[test]
fn probe_lines_are_drained_once() {
    let mut diagnostics = AttentionDiagnostics::new();
    diagnostics.lines.push("line".to_string());
    assert_eq!(take_attn_diag_lines(&mut diagnostics), vec!["line".to_string()]);
    assert!(take_attn_diag_lines(&mut diagnostics).is_empty());
    set_attn_seg_map(&mut diagnostics, vec![1, 2, 9]);
    assert_eq!(diagnostics.segment(1), 2);
    assert_eq!(diagnostics.segment(2), 9);
    assert_eq!(diagnostics.segment(3), 0);
}

#[test]
fn probe_reads_follow_the_rows() {
    let q = bf16(&[20, 2, 8], 0x1000);
    let k = bf16(&[20, 1, 8], 0x2000);
    let plan = composed_gqa_bf16(&q, &k, &k, 20, true);
    let buffers = ComposedBuffers {
        query: span(0x10_0000, plan.query_bytes),
        key: span(0x20_0000, plan.key_bytes),
        value: span(0x30_0000, plan.key_bytes),
        output: span(0x40_0000, plan.query_bytes),
        scores: span(0x50_0000, plan.scores_bytes),
    };
    let reads = chunk_reads(&plan.shape, &buffers, 0, ProbeLayer::First);
    // Rows 3, 4, 7 and 19, the pairing read after row 7, and 15 rows at two heads.
    assert_eq!(reads.len(), 4 + 1 + 30);
    assert_eq!(
        reads[0],
        ProbeRead::Row {
            row: 3,
            key_end: 20,
            probabilities: span(0x50_0000 + 3 * 2 * 20 * 4, 80),
            query: span(0x10_0000 + 3 * 2 * 8 * 4, 32),
            output: span(0x40_0000 + 3 * 2 * 8 * 4, 32),
        }
    );
    assert_eq!(
        reads[3],
        ProbeRead::Pairing {
            row: 7,
            probabilities: span(0x50_0000 + (7 * 2 + 1) * 20 * 4, 80),
            query: span(0x10_0000 + (7 * 2 + 1) * 8 * 4, 32),
            output: span(0x40_0000 + (7 * 2 + 1) * 8 * 4, 32),
        }
    );
    assert_eq!(
        reads[5],
        ProbeRead::Tail {
            row: 5,
            head: 0,
            output: span(0x40_0000 + 5 * 2 * 8 * 4, 32),
        }
    );
    let last = chunk_reads(&plan.shape, &buffers, 0, ProbeLayer::Last);
    assert_eq!(last.len(), 4 + 30);
}

#[test]
fn a_single_head_is_probed_without_pairing() {
    let q = bf16(&[20, 1, 8], 0x1000);
    let k = bf16(&[20, 1, 8], 0x2000);
    let plan = composed_gqa_bf16(&q, &k, &k, 20, true);
    let buffers = ComposedBuffers {
        query: span(0x10_0000, plan.query_bytes),
        key: span(0x20_0000, plan.key_bytes),
        value: span(0x30_0000, plan.key_bytes),
        output: span(0x40_0000, plan.query_bytes),
        scores: span(0x50_0000, plan.scores_bytes),
    };
    let reads = chunk_reads(&plan.shape, &buffers, 0, ProbeLayer::First);
    assert_eq!(reads.len(), 4 + 15);
    assert_eq!(reads, chunk_reads(&plan.shape, &buffers, 0, ProbeLayer::Last));
}

#[test]
fn composed_operands_are_widened_and_the_output_rounded_once() {
    let q = bf16(&[20, 4, 8], 0x1000);
    let k = bf16(&[24, 2, 8], 0x2000);
    let v = bf16(&[24, 2, 8], 0x3000);
    let plan = composed_gqa_bf16(&q, &k, &v, 22, true);
    let buffers = ComposedBuffers {
        query: span(0x10_0000, plan.query_bytes),
        key: span(0x20_0000, plan.key_bytes),
        value: span(0x30_0000, plan.key_bytes),
        output: span(0x40_0000, plan.query_bytes),
        scores: span(0x50_0000, plan.scores_bytes),
    };
    let cast = |source: usize, target: usize, count: usize| Cast {
        source,
        target,
        count,
    };
    assert_eq!(
        widen_operands(&plan, &buffers),
        vec![
            cast(0x1000, 0x10_0000, 20 * 4 * 8),
            cast(0x2000, 0x20_0000, 24 * 2 * 8),
            cast(0x3000, 0x30_0000, 24 * 2 * 8),
        ]
    );
    assert_eq!(
        round_output(&plan, &buffers, &span(0x60_0000, plan.output_bytes)),
        cast(0x40_0000, 0x60_0000, 20 * 4 * 8)
    );
}

#[test]
fn sdpa_refuses_bad_requests() {
    let ctx = context();
    let query = bf16(&[2, 4, 8], 0x1000);
    let cache = Some(LayerCache {
        key: span(0x2000, 4096),
        value: span(0x4000, 4096),
    });
    let shape = SdpaShape {
        dtype: DType::BF16,
        seq_len: 2,
        n_heads: 4,
        n_kv_heads: 2,
        head_dim: 8,
        kv_len: 3,
        max_seq_len: 16,
        kv_offset: 1,
    };
    let run = |query: &Tensor, cache: Option<LayerCache>, shape: SdpaShape| {
        sdpa(&ctx, &NO_KERNELS, &DEFAULTS, query, cache, &shape)
    };
    assert!(other(run(&query, cache, SdpaShape { n_kv_heads: 3, ..shape })).contains("divisible"));
    assert!(other(run(&query, cache, SdpaShape { head_dim: 4, ..shape })).contains("query must be"));
    assert!(other(run(&query, cache, SdpaShape { kv_len: 17, ..shape })).contains("kv_len"));
    assert!(other(run(&query, cache, SdpaShape { kv_len: 0, ..shape })).contains("kv_len"));
    assert_eq!(other(run(&query, None, shape)), "expected CudaKVCache");
    assert_eq!(
        run(&query, cache, shape),
        Ok(SdpaRoute::Materialized {
            shape,
            scores_bytes: 2 * 4 * 3 * 2,
            output_bytes: 2 * 4 * 8 * 2,
        })
    );
}

#[test]
fn sdpa_products_cover_heads_and_rows() {
    let ctx = context();
    let shape = SdpaShape {
        dtype: DType::BF16,
        seq_len: 2,
        n_heads: 4,
        n_kv_heads: 2,
        head_dim: 8,
        kv_len: 3,
        max_seq_len: 16,
        kv_offset: 1,
    };
    let query = span(0x1000, 2 * 4 * 8 * 2);
    let key = span(0x2000, 2 * 16 * 8 * 2);
    let scores = span(0x3000, 2 * 4 * 3 * 2);
    let calls = score_calls(&ctx, &shape, &query, &key, &scores).unwrap();
    assert_eq!(calls.len(), 4);
    match calls[3] {
        CublasCall::GemmEx(call) => {
            // Key head 1, row 1.
            assert_eq!((call.m, call.n, call.k), (3, 2, 8));
            assert_eq!(call.a.address, 0x2000 + 16 * 8 * 2);
            assert_eq!(call.b.address, 0x1000 + (4 + 2) * 8 * 2);
            assert_eq!(call.c.address, 0x3000 + (4 + 2) * 3 * 2);
            assert_eq!(call.algo, -1);
        }
        call => panic!("unexpected call {call:?}"),
    }
    let output = span(0x5000, 2 * 4 * 8 * 2);
    let calls = value_calls(&ctx, &shape, &scores, &key, &output).unwrap();
    assert_eq!(calls.len(), 4);
    match calls[1] {
        CublasCall::GemmEx(call) => {
            // Key head 0, row 1.
            assert_eq!((call.m, call.n, call.k), (8, 2, 3));
            assert_eq!(call.a.address, 0x2000);
            assert_eq!(call.b.address, 0x3000 + 4 * 3 * 2);
            assert_eq!(call.c.address, 0x5000 + 4 * 8 * 2);
        }
        call => panic!("unexpected call {call:?}"),
    }
    assert!(score_calls(&ctx, &shape, &query, &span(0x2000, 10), &scores).is_err());
}

#[test]
fn fresh_prefill_gathers_the_cache() {
    let ctx = context();
    let query = bf16(&[5, 4, 128], 0x1000);
    let cache = Some(LayerCache {
        key: span(0x2000, 1 << 20),
        value: span(0x40_0000, 1 << 20),
    });
    let shape = SdpaShape {
        dtype: DType::BF16,
        seq_len: 5,
        n_heads: 4,
        n_kv_heads: 2,
        head_dim: 128,
        kv_len: 5,
        max_seq_len: 64,
        kv_offset: 0,
    };
    match sdpa(&ctx, &SM80, &DEFAULTS, &query, cache, &shape).unwrap() {
        SdpaRoute::Prefill { gather, .. } => {
            assert_eq!(gather.bytes, 5 * 2 * 128 * 2);
            assert_eq!(gather.key, 0x2000);
            assert_eq!(gather.value, 0x40_0000);
            assert_eq!(gather.max_seq_len, 64);
        }
        route => panic!("unexpected route {route:?}"),
    }
    let legacy = AttentionSwitches {
        prefill_legacy: true,
        ..DEFAULTS
    };
    for route in [
        sdpa(&ctx, &SM80, &legacy, &query, cache, &shape),
        sdpa(&ctx, &NO_KERNELS, &DEFAULTS, &query, cache, &shape),
        sdpa(
            &ctx,
            &SM80,
            &DEFAULTS,
            &query,
            cache,
            &SdpaShape { kv_len: 6, ..shape },
        ),
    ] {
        assert!(matches!(route.unwrap(), SdpaRoute::Materialized { .. }));
    }
}

#[test]
fn decode_softmax_checks_its_buffers() {
    let ctx = context();
    let position = CudaDeviceAddress {
        address: 0x9000,
        len: 4,
        device: 0,
    };
    let launch =
        softmax_f32_into(&ctx, &span(0x1000, 64), &span(0x2000, 64), 8, 2, position).unwrap();
    assert_eq!((launch.cols, launch.heads, launch.position), (8, 2, 0x9000));
    assert_eq!(
        softmax_f32_into(&ctx, &span(0x1000, 63), &span(0x2000, 64), 8, 2, position),
        Err(Error::BufferLength {
            operation: "attention softmax",
            name: "scores",
            required: 64,
            got: 63,
        })
    );
    let elsewhere = CudaBuffer {
        device: 1,
        ..span(0x2000, 64)
    };
    assert_eq!(
        softmax_f32_into(&ctx, &span(0x1000, 64), &elsewhere, 8, 2, position),
        Err(Error::BufferDevice {
            operation: "attention softmax",
            name: "output",
            expected: 0,
            got: 1,
        })
    );
    let short = CudaDeviceAddress { len: 3, ..position };
    assert!(matches!(
        softmax_f32_into(&ctx, &span(0x1000, 64), &span(0x2000, 64), 8, 2, short),
        Err(Error::Address { required: 4, len: 3, .. })
    ));
    assert!(matches!(
        softmax_f32_into(&ctx, &span(0x1000, 64), &span(0x2000, 64), 0, 2, position),
        Err(Error::Dimensions { problem: "dimensions must be non-zero", .. })
    ));
}

#[test]
fn flash_decode_checks_heads_scale_and_bucket() {
    let ctx = context();
    let position = CudaDeviceAddress {
        address: 0x9000,
        len: 4,
        device: 0,
    };
    let extents = DecodeExtents {
        heads: 4,
        kv_heads: 2,
        head_dim: 8,
        bucket_kv_len: 16,
        max_seq_len: 32,
    };
    let query = span(0x1000, 64);
    let cache = span(0x2000, 2 * 32 * 8 * 2);
    let run = |extents: DecodeExtents, scale: u32| {
        flash_bf16_into(&ctx, &query, &cache, &cache, &query, &extents, scale, position)
    };
    let launch = run(extents, ONE).unwrap();
    assert_eq!(launch.bucket_kv_len, 16);
    assert_eq!(launch.scale, ONE);
    assert!(matches!(
        run(extents, f32::INFINITY.to_bits()),
        Err(Error::Operation { .. })
    ));
    assert!(matches!(
        run(extents, f32::NAN.to_bits()),
        Err(Error::Operation { .. })
    ));
    for bad in [
        DecodeExtents { heads: 0, ..extents },
        DecodeExtents { kv_heads: 3, ..extents },
        DecodeExtents { kv_heads: 0, ..extents },
        DecodeExtents { bucket_kv_len: 33, ..extents },
    ] {
        assert!(other(run(bad, ONE)).contains("invalid head or sequence"));
    }
}

#[test]
fn row_operations_use_the_last_two_extents() {
    let input = tensor(DType::F32, &[3, 4, 5], 0x1000);
    let launch = softmax(&input).unwrap();
    assert_eq!((launch.rows, launch.cols, launch.output_bytes), (4, 5, 240));
    assert_eq!(launch.op, RowOp::Softmax);
    let masked = causal_mask(&input, 7).unwrap();
    assert_eq!(masked.op, RowOp::CausalMask { kv_offset: 7 });
    let fused = softmax_causal(&input, 7, 2).unwrap();
    assert_eq!(
        fused.op,
        RowOp::CausalSoftmax {
            kv_offset: 7,
            heads: 2
        }
    );
    assert_eq!(
        softmax(&tensor(DType::I32, &[4, 5], 0x1000)),
        Err(Error::UnsupportedDType {
            operation: "softmax",
            dtype: DType::I32,
        })
    );
}

#[test]
fn vision_picks_its_kernel_by_head_dimension() {
    let kernel = |build: &AttentionBuild, switches: &AttentionSwitches, head: usize| {
        let q = bf16(&[6, 2, head], 0x1000);
        match vision(build, switches, &q, &q, &q, 6, 2, head).unwrap() {
            DenseRoute::Vision(launch) => Some(launch.kernel),
            DenseRoute::Fa2 { rows, cols, .. } => {
                assert_eq!((rows, cols), (6, 2 * head));
                None
            }
            route => panic!("unexpected route {route:?}"),
        }
    };
    let legacy = AttentionSwitches {
        vision_legacy: true,
        ..DEFAULTS
    };
    assert_eq!(kernel(&NO_KERNELS, &DEFAULTS, 64), Some(VisionKernel::Head64));
    assert_eq!(kernel(&NO_KERNELS, &DEFAULTS, 72), Some(VisionKernel::Head72));
    assert_eq!(kernel(&NO_KERNELS, &DEFAULTS, 80), Some(VisionKernel::SingleWarp));
    assert_eq!(kernel(&NO_KERNELS, &legacy, 64), Some(VisionKernel::SingleWarp));
    assert_eq!(kernel(&SM80, &DEFAULTS, 64), None);
    assert_eq!(kernel(&SM80, &legacy, 72), Some(VisionKernel::SingleWarp));
    let q = bf16(&[6, 2, 257], 0x1000);
    assert!(other(vision(&SM80, &DEFAULTS, &q, &q, &q, 6, 2, 257)).contains("head_dim"));
    let q = f16(&[6, 2, 64], 0x1000);
    assert!(other(vision(&SM80, &DEFAULTS, &q, &q, &q, 6, 2, 64)).contains("only BF16"));
}

#[test]
fn noncausal_checks_shape_device_and_portable_limit() {
    let ctx = context();
    let q = bf16(&[3, 2, 32], 0x1000);
    let k = bf16(&[5, 2, 32], 0x2000);
    match noncausal(&ctx, &NO_KERNELS, &q, &k, &k, 2, 32).unwrap() {
        DenseRoute::Portable(launch) => {
            assert_eq!((launch.query_len, launch.key_value_len), (3, 5));
            assert_eq!(launch.output.bytes, 3 * 64 * 2);
            assert_eq!(launch.scale_dim, 32);
        }
        route => panic!("unexpected route {route:?}"),
    }
    match noncausal(&ctx, &SM100, &q, &k, &k, 2, 32).unwrap() {
        DenseRoute::Fa2 { launch, rows, cols } => {
            assert_eq!((rows, cols), (3, 64));
            assert_eq!((launch.query_tokens, launch.key_tokens), (3, 5));
            assert_eq!(launch.lse_bytes, 2 * 3 * 4);
        }
        route => panic!("unexpected route {route:?}"),
    }
    assert!(other(noncausal(&ctx, &SM80, &q, &k, &k, 2, 33)).contains("even head_dim"));
    assert!(other(noncausal(&ctx, &SM80, &q, &k, &q, 2, 32)).contains("non-zero rows"));
    let mut far = bf16(&[5, 2, 32], 0x2000);
    far.device = Device::Cuda(1);
    assert_eq!(
        noncausal(&ctx, &SM80, &q, &far, &k, 2, 32),
        Err(Error::DeviceMismatch {
            expected: Device::Cuda(0),
            got: Device::Cuda(1),
        })
    );
    let long = bf16(&[12_288, 2, 32], 0x2000);
    assert!(other(noncausal(&ctx, &NO_KERNELS, &q, &long, &long, 2, 32)).contains("12287"));
    assert!(noncausal(&ctx, &SM80, &q, &long, &long, 2, 32).is_ok());
}

#[test]
fn strided_projection_needs_fa2() {
    let ctx = context();
    let qkv = bf16(&[10, 3 * 64], 0x1000);
    let launch = noncausal_strided_qkv(&ctx, &SM80, &qkv, 2, 32).unwrap();
    assert_eq!((launch.tokens, launch.heads, launch.head_dim), (10, 2, 32));
    assert_eq!(launch.output.bytes, 10 * 64 * 2);
    assert_eq!(launch.lse_bytes, 80);
    assert!(other(noncausal_strided_qkv(&ctx, &NO_KERNELS, &qkv, 2, 32)).contains("FA2 backend"));
    assert!(other(noncausal_strided_qkv(&ctx, &SM80, &qkv, 2, 30)).contains("3 * hidden"));
    let flat = bf16(&[10], 0x1000);
    assert!(other(noncausal_strided_qkv(&ctx, &SM80, &flat, 2, 32)).contains("rank-2"));
}

#[test]
fn qkv_split_allocates_one_projection_per_part() {
    let qkv = bf16(&[10, 96], 0x1000);
    let bias = bf16(&[96], 0x2000);
    let launch = split_qkv_bias_bf16(&qkv, Some(&bias), 4, 8).unwrap();
    assert_eq!((launch.tokens, launch.width), (10, 32));
    assert_eq!(launch.output.bytes, 10 * 32 * 2);
    assert_eq!(launch.bias, 0x2000);
    assert_eq!(split_qkv_bias_bf16(&qkv, None, 4, 8).unwrap().bias, 0);
    assert!(split_qkv_bias_bf16(&qkv, Some(&bf16(&[95], 0x2000)), 4, 8).is_err());
    assert!(split_qkv_bias_bf16(&f16(&[10, 96], 0x1000), None, 4, 8).is_err());
}

#[test]
fn mrope_split_checks_sections_and_cache() {
    let shape = MropeShape {
        q_heads: 4,
        kv_heads: 2,
        head_dim: 16,
        theta: 10_000f32.to_bits(),
        section_height: 3,
        section_width: 5,
        cache_tokens: 8,
    };
    let qkv = bf16(&[5, 4 * 16 + 2 * 2 * 16], 0x1000);
    let positions = span(0x2000, 5 * 3 * 4);
    let launch = split_gqa_qkv_mrope_cache_bf16(&qkv, None, &positions, &shape, None).unwrap();
    assert_eq!(launch.cache_offset, 0);
    assert_eq!(
        launch.target,
        CacheTarget::Owned {
            rows: 16,
            cols: 16,
            bytes: 512
        }
    );
    let cache = bf16(&[8, 2, 16], 0x3000);
    let launch =
        split_gqa_qkv_mrope_cache_bf16(&qkv, None, &positions, &shape, Some((&cache, &cache, 3)))
            .unwrap();
    assert_eq!(launch.cache_offset, 3);
    assert!(other(split_gqa_qkv_mrope_cache_bf16(
        &qkv,
        None,
        &positions,
        &shape,
        Some((&cache, &cache, 4))
    ))
    .contains("cache shape mismatch"));
    let tight = MropeShape {
        cache_tokens: 4,
        ..shape
    };
    assert!(
        other(split_gqa_qkv_mrope_cache_bf16(&qkv, None, &positions, &tight, None))
            .contains("too short")
    );
    let wide = MropeShape {
        section_width: 6,
        ..shape
    };
    assert!(
        other(split_gqa_qkv_mrope_cache_bf16(&qkv, None, &positions, &wide, None))
            .contains("mRoPE shape mismatch")
    );
    let base = MropeShape {
        theta: (-1f32).to_bits(),
        ..shape
    };
    assert!(split_gqa_qkv_mrope_cache_bf16(&qkv, None, &positions, &base, None).is_err());
    assert!(
        split_gqa_qkv_mrope_cache_bf16(&qkv, None, &span(0x2000, 59), &shape, None).is_err()
    );
}

#[test]
fn vision_rope_split_wants_two_coordinates_per_token() {
    let qkv = f16(&[5, 3 * 32], 0x1000);
    let launch =
        split_vision_qkv_rope_bf16(&qkv, None, &span(0x2000, 40), 4, 8, 10_000f32.to_bits())
            .unwrap();
    assert!(launch.half);
    assert_eq!(launch.output.dtype, DType::BF16);
    assert!(
        split_vision_qkv_rope_bf16(&qkv, None, &span(0x2000, 39), 4, 8, 10_000f32.to_bits())
            .is_err()
    );
    assert!(split_vision_qkv_rope_bf16(&qkv, None, &span(0x2000, 40), 4, 8, 0).is_err());
}

#[test]
fn dense_fa2_sizes_its_statistics() {
    let q = bf16(&[6, 4, 32], 0x1000);
    let extents = AttentionExtents {
        batches: 2,
        query_tokens: 3,
        key_tokens: 3,
        query_heads: 4,
        kv_heads: 4,
        head_dim: 32,
    };
    let launch = fa2_attention(&q, &q, &q, &extents).unwrap();
    assert_eq!(launch.kernel, Fa2Kernel::Bf16);
    assert_eq!(launch.output_bytes, 6 * 4 * 32 * 2);
    assert_eq!(launch.lse_bytes, 2 * 4 * 3 * 4);
    assert_eq!(launch.split, None);
    let huge = AttentionExtents {
        batches: usize::MAX,
        query_heads: 2,
        ..extents
    };
    assert!(other(fa2_attention(&q, &q, &q, &huge)).contains("LSE size overflow"));
    let wide = AttentionExtents {
        batches: usize::MAX / 3,
        query_heads: 1,
        query_tokens: 3,
        ..extents
    };
    assert!(other(fa2_attention(&q, &q, &q, &wide)).contains("LSE byte size overflow"));
    let mut host = bf16(&[6, 4, 32], 0x1000);
    host.device = Device::Cpu;
    assert!(other(fa2_attention(&q, &host, &q, &extents)).contains("not resident"));
}

#[test]
fn split_attention_reserves_memory_for_every_split() {
    let ctx = context();
    let q = bf16(&[10, 8, 256], 0x1000);
    let k = bf16(&[532, 256], 0x2000);
    let extents = AttentionExtents {
        batches: 1,
        query_tokens: 10,
        key_tokens: 532,
        query_heads: 8,
        kv_heads: 1,
        head_dim: 256,
    };
    let launch = fa2_attention_splitkv(&ctx, &SM80, &q, &k, &k, &extents, false).unwrap();
    assert_eq!(launch.kernel, Fa2Kernel::Bf16Split);
    let split = launch.split.unwrap();
    assert_eq!(split.splits, 3);
    assert_eq!(split.lse_accum_bytes, 9 * 80 * 4);
    assert_eq!(split.o_accum_bytes, 9 * 80 * 256 * 4);
    assert!(split.splits as usize * 80 * 4 <= split.lse_accum_bytes);
    let causal = fa2_attention_splitkv(&ctx, &SM80, &q, &k, &k, &extents, true).unwrap();
    assert_eq!(causal.kernel, Fa2Kernel::Bf16CausalSplit);
}

#[test]
fn split_attention_is_for_short_grouped_queries() {
    assert!(fa2_splitkv_enabled(&DEFAULTS, 64, 65, 8, 1, 256));
    assert!(!fa2_splitkv_enabled(&DEFAULTS, 65, 128, 8, 1, 256));
    assert!(!fa2_splitkv_enabled(&DEFAULTS, 64, 64, 8, 1, 256));
    assert!(!fa2_splitkv_enabled(&DEFAULTS, 64, 65, 1, 1, 256));
    assert!(!fa2_splitkv_enabled(&DEFAULTS, 64, 65, 8, 1, 96));
    let off = AttentionSwitches {
        no_splitkv: true,
        ..DEFAULTS
    };
    assert!(!fa2_splitkv_enabled(&off, 64, 65, 8, 1, 256));
}

#[test]
fn prefill_is_declined_without_a_kernel() {
    let ctx = context();
    let q = bf16(&[6, 4, 128], 0x1000);
    let k = bf16(&[6, 2, 128], 0x2000);
    let launch = causal_gqa_prefill_bf16(&ctx, &SM80, &q, &k, &k).unwrap().unwrap();
    assert_eq!(launch.kernel, Fa2Kernel::Bf16Causal);
    assert_eq!((launch.query_heads, launch.kv_heads), (4, 2));
    assert_eq!(causal_gqa_prefill_bf16(&ctx, &NO_KERNELS, &q, &k, &k), Ok(None));
    let small = bf16(&[6, 4, 96], 0x1000);
    let small_k = bf16(&[6, 2, 96], 0x2000);
    assert_eq!(
        causal_gqa_prefill_bf16(&ctx, &SM80, &small, &small_k, &small_k),
        Ok(None)
    );
    let wide = bf16(&[6, 4, 257], 0x1000);
    let wide_k = bf16(&[6, 2, 257], 0x2000);
    assert_eq!(causal_gqa_prefill_bf16(&ctx, &SM80, &wide, &wide_k, &wide_k), Ok(None));
    assert!(other(causal_gqa_prefill_bf16(&ctx, &SM80, &q, &small_k, &small_k))
        .contains("shape mismatch"));
}

#[test]
fn mqa_takes_the_best_compiled_kernel() {
    let ctx = context();
    let q = bf16(&[10, 8, 256], 0x1000);
    let k = bf16(&[532, 256], 0x2000);
    let run = |build: &AttentionBuild, key_tokens: usize| {
        mqa_bf16(&ctx, build, &DEFAULTS, &q, &k, &k, key_tokens)
    };
    match run(&SM80, 532).unwrap() {
        MqaRoute::Fa2(launch) => assert_eq!(launch.kernel, Fa2Kernel::Bf16Split),
        route => panic!("unexpected route {route:?}"),
    }
    match run(&SM80, 10).unwrap() {
        MqaRoute::Fa2(launch) => assert_eq!(launch.kernel, Fa2Kernel::Bf16),
        route => panic!("unexpected route {route:?}"),
    }
    let cutlass = AttentionBuild {
        cutlass_fmha: true,
        ..NO_KERNELS
    };
    match run(&cutlass, 532).unwrap() {
        MqaRoute::Mqa(launch) => {
            assert_eq!(launch.kernel, MqaKernel::CublasBf16);
            assert_eq!(launch.key_tokens, 532);
        }
        route => panic!("unexpected route {route:?}"),
    }
    match run(&SM100, 532).unwrap() {
        MqaRoute::Mqa(launch) => assert_eq!(launch.kernel, MqaKernel::NativeBf16),
        route => panic!("unexpected route {route:?}"),
    }
    assert!(other(run(&SM80, 533)).contains("MQA shape mismatch"));
    assert!(other(run(&SM80, 0)).contains("MQA shape mismatch"));
}

#[test]
fn causal_gqa_routes_by_head_dimension_and_rows() {
    let ctx = context();
    let k = bf16(&[100, 2, 256], 0x2000);
    let run = |build: &AttentionBuild, switches: &AttentionSwitches, rows: usize, keys: usize| {
        let q = bf16(&[rows, 8, 256], 0x1000);
        causal_gqa_bf16(&ctx, build, switches, &q, &k, &k, keys)
    };
    match run(&SM100, &DEFAULTS, 100, 100).unwrap() {
        GqaRoute::Fa2(launch) => assert_eq!(launch.kernel, Fa2Kernel::Bf16Causal),
        route => panic!("unexpected route {route:?}"),
    }
    match run(&SM100, &DEFAULTS, 1, 100).unwrap() {
        GqaRoute::Fa2(launch) => {
            assert_eq!(launch.kernel, Fa2Kernel::Bf16Split);
            assert_eq!(launch.query_tokens, 1);
        }
        route => panic!("unexpected route {route:?}"),
    }
    assert!(matches!(run(&SM100, &DEFAULTS, 20, 100).unwrap(), GqaRoute::Composed(_)));
    assert!(matches!(run(&SM80, &DEFAULTS, 100, 100).unwrap(), GqaRoute::Composed(_)));
    let composed = AttentionSwitches {
        composed_prefill: true,
        composed_decode: true,
        ..DEFAULTS
    };
    assert!(matches!(run(&SM100, &composed, 100, 100).unwrap(), GqaRoute::Composed(_)));
    assert!(matches!(run(&SM100, &composed, 1, 100).unwrap(), GqaRoute::Composed(_)));
    assert!(other(run(&NO_KERNELS, &DEFAULTS, 1, 100)).contains("FA2 backend"));
    assert!(other(run(&SM100, &DEFAULTS, 101, 100)).contains("shape mismatch"));

    let q = bf16(&[4, 8, 128], 0x1000);
    let k = bf16(&[100, 2, 128], 0x2000);
    match causal_gqa_bf16(&ctx, &SM80, &DEFAULTS, &q, &k, &k, 100).unwrap() {
        GqaRoute::Fa2(launch) => assert_eq!(launch.kernel, Fa2Kernel::Bf16CausalSplit),
        route => panic!("unexpected route {route:?}"),
    }
    match causal_gqa_bf16(&ctx, &SM80, &DEFAULTS, &q, &k, &k, 4).unwrap() {
        GqaRoute::Fa2(launch) => assert_eq!(launch.kernel, Fa2Kernel::Bf16Causal),
        route => panic!("unexpected route {route:?}"),
    }
}

#[test]
fn mha_batches_are_whole() {
    let q = bf16(&[512, 16, 72], 0x1000);
    match mha_bf16(&SM80, true, &q, &q, &q, 256).unwrap() {
        MhaRoute::Fa2(launch) => {
            assert_eq!(launch.batches, 2);
            assert_eq!(launch.query_tokens, 256);
        }
        route => panic!("unexpected route {route:?}"),
    }
    let cutlass = AttentionBuild {
        cutlass_fmha: true,
        ..NO_KERNELS
    };
    match mha_bf16(&cutlass, true, &q, &q, &q, 256).unwrap() {
        MhaRoute::Cutlass { launch, prepare } => {
            assert!(prepare);
            assert_eq!((launch.batches, launch.tokens), (2, 256));
        }
        route => panic!("unexpected route {route:?}"),
    }
    assert!(matches!(
        mha_bf16(&cutlass, true, &q, &q, &q, 128).unwrap(),
        MhaRoute::Native(_)
    ));
    assert!(other(mha_bf16(&SM80, true, &q, &q, &q, 300)).contains("MHA shape mismatch"));
    assert!(other(mha_bf16(&SM80, true, &q, &q, &q, 0)).contains("MHA shape mismatch"));
    assert_eq!(check_fmha(true, 0), Ok(()));
    assert!(matches!(check_fmha(true, 3), Err(Error::Native { status: 3, .. })));
    assert_ne!(check_fmha(true, 3), check_fmha(false, 3));
}

#[test]
fn half_precision_mqa_checks_types_and_shapes() {
    let q = f16(&[10, 8, 256], 0x1000);
    let prefix = f16(&[512, 256], 0x2000);
    let suffix = f16(&[10, 256], 0x3000);
    let joined = mqa_prefix_suffix_f16(&q, &prefix, &prefix, &suffix, &suffix).unwrap();
    assert_eq!(joined.key_tokens, 522);
    assert_eq!((joined.key.first_rows, joined.key.second_rows), (512, 10));
    assert_eq!(joined.value.output.bytes, 522 * 256 * 2);
    let wrong = bf16(&[10, 256], 0x3000);
    assert_eq!(
        mqa_prefix_suffix_f16(&q, &prefix, &prefix, &wrong, &suffix),
        Err(Error::DTypeMismatch {
            expected: DType::F16,
            got: DType::BF16,
        })
    );
    assert!(other(mqa_prefix_suffix_f16(&q, &prefix, &suffix, &suffix, &suffix))
        .contains("MQA shape mismatch"));
    assert_eq!(
        mqa_cached_f16(&q, &prefix, &prefix, 512).unwrap().kernel,
        MqaKernel::CublasF16
    );
    assert!(other(mqa_cached_f16(&q, &prefix, &prefix, 511)).contains("cached MQA"));
    let keys = f16(&[10, 1, 256], 0x4000);
    assert!(matches!(mqa_f16(&NO_KERNELS, &q, &keys, &keys).unwrap(), MqaRoute::Mqa(_)));
    match mqa_f16(&SM100, &q, &keys, &keys).unwrap() {
        MqaRoute::Fa2(launch) => assert_eq!((launch.kernel, launch.kv_heads), (Fa2Kernel::F16, 1)),
        route => panic!("unexpected route {route:?}"),
    }
    assert!(other(mqa_f16(&SM100, &q, &q, &q)).contains("self MQA"));
}

#[test]
fn packed_projection_is_used_in_place_where_compiled() {
    let qkv = f16(&[512, 3 * 16 * 72], 0x1000);
    let bias = f16(&[3 * 16 * 72], 0x2000);
    match mha_packed_qkv_bias_f16(&SM100, &qkv, Some(&bias), 256, 16, 72).unwrap() {
        PackedRoute::Strided(launch) => {
            assert_eq!((launch.batches, launch.tokens), (2, 256));
            assert_eq!(launch.lse_bytes, 512 * 16 * 4);
            assert_eq!(launch.bias.unwrap().bias, 0x2000);
        }
        route => panic!("unexpected route {route:?}"),
    }
    assert!(matches!(
        mha_packed_qkv_bias_f16(&SM80, &qkv, None, 256, 16, 72).unwrap(),
        PackedRoute::Split(_)
    ));
    assert!(matches!(
        mha_packed_qkv_bias_f16(&SM100, &qkv, None, 128, 16, 72).unwrap(),
        PackedRoute::Split(_)
    ));
    assert!(
        other(mha_packed_qkv_bias_f16(&SM100, &qkv, None, 300, 16, 72)).contains("packed vision")
    );
    assert!(other(mha_packed_qkv_bias_f16(&SM100, &qkv, None, 256, usize::MAX, 2))
        .contains("width overflow"));
    let q = f16(&[512, 16, 72], 0x1000);
    assert!(matches!(mha_f16(&SM100, &q, &q, &q, 256).unwrap(), MhaRoute::Fa2(_)));
    assert!(matches!(mha_f16(&SM80, &q, &q, &q, 256).unwrap(), MhaRoute::FlashF16(_)));
}

#[test]
fn direct_quantized_attention_has_one_shape() {
    let q = f16(&[522, 8, 256], 0x1000);
    let k = f16(&[522, 1, 256], 0x2000);
    let launch = mqa_f16_e4m3_522(&SM100, &q, &k, &k, ONE).unwrap();
    assert_eq!(launch.output_bytes, 522 * 8 * 256);
    assert_eq!(launch.lse_bytes, 522 * 8 * 4);
    assert!(other(mqa_f16_e4m3_522(&SM80, &q, &k, &k, ONE)).contains("SM100-family"));
    assert!(other(mqa_f16_e4m3_522(&SM100, &q, &k, &k, 0)).contains("finite positive scale"));
    assert!(mqa_f16_e4m3_522(&SM100, &k, &k, &k, ONE).is_err());
}

#[test]
fn segmented_attention_picks_a_route() {
    let ctx = context();
    let offsets = span(0x9000, 16);
    let host = [0u32, 4, 4, 10];
    let run = |build: &AttentionBuild, switches: &AttentionSwitches, head: usize, host: &[u32]| {
        let q = bf16(&[10, 2, head], 0x1000);
        segmented_mha_bf16(&ctx, build, switches, &q, &q, &q, &offsets, host, 3, 6)
    };
    match run(&SM100, &DEFAULTS, 64, &host).unwrap() {
        SegmentedRoute::Special(plan) => {
            assert_eq!(plan.row_bytes, 256);
            assert_eq!(plan.output_bytes, 2560);
            // The empty segment is passed over.
            assert_eq!(plan.pieces.len(), 2);
            assert_eq!(plan.pieces[1].offset, 4 * 256);
            assert_eq!(plan.pieces[1].tokens, 6);
            assert_eq!(plan.pieces[1].launch.query, 0x1000 + 4 * 256);
        }
        route => panic!("unexpected route {route:?}"),
    }
    let portable = AttentionSwitches {
        vision_fa2: false,
        ..DEFAULTS
    };
    match run(&SM100, &portable, 64, &host).unwrap() {
        SegmentedRoute::Composed(plan) => {
            assert!(!plan.widen);
            assert!(widen_segments(&plan, &span(0x10, 0), &span(0x20, 0)).is_empty());
            assert_eq!(plan.heads, 2);
            assert_eq!(plan.segments.len(), 2);
            assert_eq!((plan.segments[1].start, plan.segments[1].tokens), (4, 6));
        }
        route => panic!("unexpected route {route:?}"),
    }
    let wide = AttentionSwitches {
        wide_scores: true,
        ..portable
    };
    match run(&SM100, &wide, 64, &host).unwrap() {
        SegmentedRoute::Composed(plan) => {
            assert_eq!(plan.wide_bytes, 10 * 2 * 64 * 4);
            let cast = |target: usize| Cast {
                source: 0x1000,
                target,
                count: 10 * 2 * 64,
            };
            assert_eq!(
                widen_segments(&plan, &span(0x5000, 5120), &span(0x7000, 5120)),
                vec![cast(0x5000), cast(0x7000)]
            );
        }
        route => panic!("unexpected route {route:?}"),
    }
    match run(&SM80, &DEFAULTS, 64, &host).unwrap() {
        SegmentedRoute::Generic(plan) => {
            assert_eq!(plan.pieces.len(), 3);
            assert_eq!(plan.pieces[2].offset, 4 * 256);
            assert_eq!(plan.pieces[2].lse_offset, 4 * 8);
            assert_eq!(plan.lse_bytes, 80);
        }
        route => panic!("unexpected route {route:?}"),
    }
    match run(&NO_KERNELS, &DEFAULTS, 64, &host).unwrap() {
        SegmentedRoute::Native(launch) => {
            assert_eq!((launch.segments, launch.max_tokens), (3, 6));
            assert_eq!(launch.offsets, 0x9000);
        }
        route => panic!("unexpected route {route:?}"),
    }
    assert!(other(run(&SM100, &DEFAULTS, 64, &[0, 4, 4, 9])).contains("offsets/device"));
    assert!(other(run(&SM100, &DEFAULTS, 64, &[0, 3, 3, 10])).contains("offsets/device"));
    assert!(other(run(&SM100, &DEFAULTS, 64, &[0, 10])).contains("matching"));
}

#[test]
fn segment_products_stay_inside_the_segment() {
    let ctx = context();
    let shape = SegmentShape {
        heads: 2,
        widen: false,
    };
    let part = Segment {
        start: 4,
        tokens: 6,
    };
    let (scores_bytes, probs_bytes) = segment_memory(2, 6);
    assert_eq!((scores_bytes, probs_bytes), (2 * 36 * 4, 2 * 36 * 2));
    let packed = 10 * 2 * 64 * 2;
    let buffers = SegmentBuffers {
        query: span(0x1_0000, packed),
        key: span(0x2_0000, packed),
        value: span(0x3_0000, packed),
        output: span(0x4_0000, packed),
        scores: span(0x5_0000, scores_bytes),
        probs: span(0x6_0000, probs_bytes),
    };
    let steps = segment_steps(&ctx, Device::Cuda(0), &shape, &buffers, part).unwrap();
    assert_eq!(steps.len(), 5);
    assert_eq!(
        steps[2],
        SegmentStep::Softmax(SegmentSoftmax {
            scores: 0x5_0000,
            probs: 0x6_0000,
            cols: 6,
            rows: 12,
        })
    );
    match steps[1] {
        SegmentStep::Product(CublasCall::GemmEx(call)) => {
            assert_eq!(call.alpha, Scalar::InverseRoot(64));
            assert_eq!(call.b.address, 0x1_0000 + (4 * 128 + 64) * 2);
            assert_eq!(call.c.address, 0x5_0000 + 36 * 4);
            assert_eq!(call.c.dtype, cudaDataType_t::CUDA_R_32F);
        }
        ref step => panic!("unexpected step {step:?}"),
    }
    match steps[4] {
        SegmentStep::Product(CublasCall::GemmEx(call)) => {
            assert_eq!(call.a.address, 0x3_0000 + (4 * 128 + 64) * 2);
            assert_eq!(call.c.address, 0x4_0000 + (4 * 128 + 64) * 2);
            assert_eq!(call.c.dtype, cudaDataType_t::CUDA_R_16BF);
        }
        ref step => panic!("unexpected step {step:?}"),
    }
    assert!(segment_steps(&ctx, Device::Cuda(1), &shape, &buffers, part).is_err());
}

#[test]
fn vision_switch_reads_zero_and_false() {
    assert!(vision_fa2_enabled(&EnvironmentValue::Text("1".to_string())));
    assert!(vision_fa2_enabled(&EnvironmentValue::Text("".to_string())));
    assert!(!vision_fa2_enabled(&EnvironmentValue::Text("0".to_string())));
    assert!(!vision_fa2_enabled(&EnvironmentValue::Text("false".to_string())));
}
