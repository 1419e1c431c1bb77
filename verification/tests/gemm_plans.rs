use apxinf_cuda::context::{CudaContext, CudaLibraryVersions, CudaStream};
use apxinf_cuda::cublas::{CublasCall, CublasHandle};
use apxinf_cuda::device_caps::{CudaArchFamily, CudaDeviceCaps};
use apxinf_cuda::error::{Error, Shape};
use apxinf_cuda::kernels::gemm::autotune::{
    cold_l2_tuning_metadata, decode_bf16_output, CandidateRun, ColdL2Evictor, Outcome, Phase,
};
use apxinf_cuda::kernels::gemm::bf16::{
    autotune_request_bf16, autotune_request_bf16_geglu, bf16_geglu_gate_bytes,
    default_bf16_geglu_tactic, gemm_bf16, gemm_bf16_advance, gemm_bf16_geglu_fused,
    gemm_bf16_launch, gemm_bf16_start, launch_bf16_geglu_tactic, launch_tactic_bf16,
    prepare_bf16_geglu_tactic, tuning_key, Bf16GegluLaunch, Bf16Launch, GemmStage,
};
use apxinf_cuda::kernels::gemm::fp8::{
    autotune_request_fp8, autotune_request_fp8_fused, autotune_request_fp8_geglu,
    configured_fp8_bf16_heuristic, copy_fused_output, default_fp8_geglu_tactic,
    dynamic_fp8_tactic, exact_fp8_tactic, fp8_emulation_calls, fp8_reference_calls,
    fused_epilogue_id, gemm_fp8, gemm_fp8_advance, gemm_fp8_bf16, gemm_fp8_bias_bf16,
    gemm_fp8_dynamic_bf16, gemm_fp8_geglu_fused, gemm_fp8_launch, launch_fp8_geglu_tactic,
    parse_fp8_bf16_heuristic, set_cublaslt_gemm_heuristic, DynamicFp8WeightView, Factor,
    Fp8Form, Fp8GegluLaunch, Fp8Launch, Fp8Stage, Fp8WeightView, FusedReadback,
};
use apxinf_cuda::kernels::gemm::geglu::{
    decomposed_geglu_tactic, geglu_start, GegluEvent, GegluStage,
};
use apxinf_cuda::kernels::gemm::plan::{
    default_bf16_tactic, default_fp8_tactic, GemmPlanCache, PlanSource, TuneReport,
};
use apxinf_cuda::kernels::gemm::providers::{candidates, prepare, ProviderCall};
use apxinf_cuda::text::EnvironmentValue;
use apxinf_cuda::tuning::{
    BuildFeatures, CublasLtCustomConfig, Epilogue, GemmOp, GemmTuningKey, ResolvedTactic,
    TacticBackend, TacticId, TacticMatch, TuningMode, TuningRecord, TuningSession,
};
use apxinf_cuda::types::{CudaBuffer, DType, Device, Tensor};

const ONE: u32 = 0x3f80_0000;

const NO_CUTLASS: BuildFeatures = BuildFeatures {
    cutlass_gemm: false,
    cutlass_bf16_sm89: false,
    cutlass_int8_sm80: false,
};

const CUTLASS: BuildFeatures = BuildFeatures {
    cutlass_gemm: true,
    ..NO_CUTLASS
};

fn context() -> CudaContext {
    CudaContext::new(
        0,
        CudaStream { handle: 7 },
        CublasHandle { handle: 9 },
        CudaDeviceCaps {
            sm: 110,
            compute_major: 11,
            multiprocessor_count: 20,
            arch_family: CudaArchFamily::Sm100,
        },
        CudaLibraryVersions::from_reported(13_000, 130_000).unwrap(),
        TuningSession {
            generation: 4,
            mode: TuningMode::Inference,
            records: vec![],
        },
    )
}

fn span(address: usize, len: usize) -> CudaBuffer {
    CudaBuffer {
        address,
        len,
        device: 0,
    }
}

fn tensor(dtype: DType, dims: &[usize], address: usize) -> Tensor {
    let elements: usize = dims.iter().product();
    Tensor {
        dtype,
        device: Device::Cuda(0),
        dims: dims.to_vec(),
        buffer: span(address, elements * dtype.size_in_bytes()),
    }
}

fn other<T: std::fmt::Debug>(result: Result<T, Error>) -> String {
    match result.unwrap_err() {
        Error::Other(text) => text.to_string(),
        error => panic!("unexpected error {error:?}"),
    }
}

fn tactic(backend: TacticBackend, value: i32) -> TacticId {
    TacticId { backend, value }
}

fn session(mode: TuningMode, generation: u64, records: Vec<TuningRecord>) -> TuningSession {
    TuningSession {
        generation,
        mode,
        records,
    }
}

fn record(key: GemmTuningKey, tactic: TacticId, source: TacticMatch) -> TuningRecord {
    TuningRecord {
        key,
        resolved: ResolvedTactic { tactic, source },
    }
}

#[test]
fn bf16_words_widen_to_their_floats() {
    assert_eq!(
        decode_bf16_output(&[0x3f80, 0xc020, 0x0000, 0x7f80, 0x0001]),
        vec![
            1.0f32.to_bits(),
            (-2.5f32).to_bits(),
            0,
            f32::INFINITY.to_bits(),
            0x0001_0000,
        ]
    );
    assert!(f32::from_bits(decode_bf16_output(&[0x7fc0])[0]).is_nan());
    assert!(decode_bf16_output(&[]).is_empty());
}

#[test]
fn eviction_covers_four_caches() {
    assert_eq!(cold_l2_tuning_metadata(1000), Ok(4096));
    assert_eq!(cold_l2_tuning_metadata(1024), Ok(4096));
    assert!(other(cold_l2_tuning_metadata(0)).contains("empty L2"));
    assert!(other(cold_l2_tuning_metadata(-1)).contains("empty L2"));
    let mut evictor = ColdL2Evictor::new(1024).unwrap();
    assert_eq!((evictor.evict(), evictor.evict()), (1, 2));
    evictor.seed = u32::MAX;
    assert_eq!(evictor.evict(), 0);
}

#[test]
fn correct_candidates_are_timed_and_wrong_ones_are_not() {
    let mut run = CandidateRun::new(2, 3);
    let mut phases = vec![];
    for outcome in [
        Outcome::Succeeded,
        Outcome::Compared(true),
        Outcome::Succeeded,
        Outcome::Succeeded,
        Outcome::Succeeded,
        Outcome::Succeeded,
        Outcome::Succeeded,
        Outcome::Succeeded,
    ] {
        run = run.advance(outcome);
        phases.push(run.phase);
    }
    assert_eq!(
        phases,
        vec![
            Phase::Check,
            Phase::Warmup(0),
            Phase::Warmup(1),
            Phase::Settle,
            Phase::Measure(0),
            Phase::Measure(1),
            Phase::Measure(2),
            Phase::Timed,
        ]
    );
    let wrong = CandidateRun::new(2, 3)
        .advance(Outcome::Succeeded)
        .advance(Outcome::Compared(false));
    assert_eq!(wrong.phase, Phase::Wrong);
    assert_eq!(wrong.advance(Outcome::Succeeded).phase, Phase::Wrong);
    assert_eq!(
        CandidateRun::new(2, 3).advance(Outcome::Failed).phase,
        Phase::Broken
    );
}

#[test]
fn plans_are_prepared_once_per_generation() {
    let ctx = context();
    let key = tuning_key(&ctx, 8, 1024, 1024);
    let chosen = tactic(TacticBackend::CublasLt, 5);
    let tuned = session(
        TuningMode::Inference,
        1,
        vec![record(key, chosen, TacticMatch::Bucket)],
    );
    let mut cache = GemmPlanCache::new();
    let mut calls = 0;
    let plan = cache
        .resolve(&tuned, &key, default_bf16_tactic(), true, |_, _| {
            calls += 1;
            Ok(())
        })
        .unwrap();
    assert_eq!((plan.tactic, plan.source, plan.generation), (chosen, PlanSource::Bucket, 1));
    // Found again without preparing, even during a capture.
    let again = cache
        .resolve(&tuned, &key, default_bf16_tactic(), false, |_, _| {
            calls += 1;
            Ok(())
        })
        .unwrap();
    assert_eq!(again, plan);
    assert_eq!(calls, 1);
    let newer = session(TuningMode::Inference, 2, vec![]);
    assert!(cache
        .resolve(&newer, &key, default_bf16_tactic(), false, |_, _| Ok(()))
        .is_err());
    assert_eq!(cache.get(&key), Some(plan));
    cache.clear();
    assert_eq!(cache.get(&key), None);
}

#[test]
fn rejected_tactics_give_way_to_the_default() {
    let ctx = context();
    let key = tuning_key(&ctx, 8, 1024, 1024);
    let chosen = tactic(TacticBackend::CublasLt, 5);
    let tuned = session(
        TuningMode::Inference,
        1,
        vec![record(key, chosen, TacticMatch::Exact)],
    );
    let mut cache = GemmPlanCache::new();
    let mut tried = vec![];
    let plan = cache
        .resolve(&tuned, &key, default_bf16_tactic(), true, |_, tactic| {
            tried.push(tactic);
            if tactic == chosen {
                Err(Error::Other("rejected"))
            } else {
                Ok(())
            }
        })
        .unwrap();
    assert_eq!(tried, vec![chosen, default_bf16_tactic()]);
    assert_eq!((plan.tactic, plan.source), (default_bf16_tactic(), PlanSource::Default));
    let mut cache = GemmPlanCache::new();
    assert_eq!(
        cache.resolve(&tuned, &key, chosen, true, |_, _| Err(Error::Other("rejected"))),
        Err(Error::Other("rejected"))
    );
    assert_eq!(cache.get(&key), None);
    let fallback = cache.fallback(&tuned, &key, true, |_, _| Ok(())).unwrap();
    assert_eq!(fallback.tactic, tactic(TacticBackend::Vendor, 0));
    let decomposed = cache
        .fallback_to(&tuned, &key, decomposed_geglu_tactic(), true, |_, _| Ok(()))
        .unwrap();
    assert_eq!(cache.get(&key), Some(decomposed));
    assert!(cache.fallback(&tuned, &key, false, |_, _| Ok(())).is_err());
}

#[test]
fn tuning_is_entered_only_where_it_may() {
    let ctx = context();
    let key = tuning_key(&ctx, 8, 1024, 1024);
    let found = ResolvedTactic {
        tactic: tactic(TacticBackend::CublasLt, 9),
        source: TacticMatch::Exact,
    };
    let run = |session: &TuningSession, may_prepare: bool, rehearsal: bool| {
        let mut entered = false;
        let plan = GemmPlanCache::new().resolve_or_tune(
            session,
            &key,
            default_bf16_tactic(),
            may_prepare,
            rehearsal,
            |_| {
                entered = true;
                TuneReport {
                    outcome: Ok(found),
                    lookup: Some(found),
                    generation: 3,
                }
            },
            |_, _| Ok(()),
        );
        (entered, plan.map(|plan| (plan.tactic, plan.generation)))
    };
    let tuning = session(TuningMode::AutoTune, 2, vec![]);
    assert_eq!(run(&tuning, true, false), (true, Ok((found.tactic, 3))));
    assert_eq!(run(&tuning, true, true), (false, Ok((default_bf16_tactic(), 2))));
    let inference = session(TuningMode::Inference, 2, vec![]);
    assert_eq!(run(&inference, true, false), (false, Ok((default_bf16_tactic(), 2))));
    assert!(!run(&tuning, false, false).0);
    let exact = session(
        TuningMode::AutoTune,
        2,
        vec![record(key, found.tactic, TacticMatch::Exact)],
    );
    assert_eq!(run(&exact, true, false), (false, Ok((found.tactic, 2))));
}

#[test]
fn default_fp8_tile_grows_with_the_rows() {
    for (m, value) in [(16, 0), (17, 1), (64, 1), (65, 2), (256, 2), (257, 3)] {
        assert_eq!(
            default_fp8_tactic(&CUTLASS, m, 1024, 64),
            tactic(TacticBackend::Cutlass, value)
        );
    }
    let vendor = tactic(TacticBackend::Vendor, 0);
    assert_eq!(default_fp8_tactic(&CUTLASS, 16, 1008, 64), vendor);
    assert_eq!(default_fp8_tactic(&CUTLASS, 16, 1024, 65), vendor);
    assert_eq!(default_fp8_tactic(&NO_CUTLASS, 16, 1024, 64), vendor);
}

#[test]
fn the_safe_tactic_is_offered_first() {
    let ctx = context();
    let key = tuning_key(&ctx, 8, 1024, 1024);
    let offered = candidates(&CUTLASS, &key, 100);
    assert_eq!(offered[0].tactic, tactic(TacticBackend::Vendor, 0));
    // The vendor's own, 64 heuristics and two custom families of seven.
    assert_eq!(offered.len(), 1 + 64 + 7 + 7);
    let config = CublasLtCustomConfig {
        tile_id: 1,
        custom_option: 2,
        stages_id: 3,
        cluster_shape_id: 4,
    };
    for candidate in &offered {
        assert!(prepare(&CUTLASS, &key, candidate.tactic, Some(config)).is_ok());
    }
    let steps = prepare(&CUTLASS, &key, tactic(TacticBackend::CublasLt, 7), None).unwrap();
    assert!(matches!(steps.configure, Some(ProviderCall::Bf16Heuristic { rank: 7, .. })));
    assert!(matches!(steps.build, Some(ProviderCall::Bf16Prepare { split: false, .. })));
    assert!(prepare(&CUTLASS, &key, tactic(TacticBackend::CublasLt, 64), None).is_err());
    assert!(prepare(&CUTLASS, &key, tactic(TacticBackend::CublasLtCustom, 1), None).is_err());
    assert!(prepare(&CUTLASS, &key, tactic(TacticBackend::Vendor, 1), None).is_err());
    let vendor = prepare(&CUTLASS, &key, tactic(TacticBackend::Vendor, 0), None).unwrap();
    assert_eq!((vendor.configure, vendor.build), (None, None));
}

#[test]
fn plain_product_falls_back_to_the_vendor_once() {
    let ctx = context();
    let activation = tensor(DType::BF16, &[4, 32], 0x100);
    let weight = tensor(DType::BF16, &[32, 16], 0x200);
    let request = gemm_bf16(&ctx, &activation, &weight).unwrap();
    assert_eq!((request.rows, request.cols, request.output_bytes), (4, 16, 128));
    let output = span(0x300, 128);
    let stage = gemm_bf16_start(tactic(TacticBackend::CublasLtCustomSplitSerial, 3));
    assert_eq!(stage, GemmStage::Tuned { split: true });
    assert!(matches!(
        gemm_bf16_launch(ctx.cublas(), &request, stage, &output),
        Some(Bf16Launch::Native { split: true, .. })
    ));
    let stage = gemm_bf16_advance(stage, false);
    assert_eq!(stage, GemmStage::Fallback);
    let stage = gemm_bf16_advance(stage, true);
    assert_eq!(stage, GemmStage::Vendor);
    assert!(matches!(
        gemm_bf16_launch(ctx.cublas(), &request, stage, &output),
        Some(Bf16Launch::Vendor(CublasCall::GemmEx(_)))
    ));
    assert_eq!(gemm_bf16_advance(stage, true), GemmStage::Done);
    assert_eq!(gemm_bf16_advance(stage, false), GemmStage::Failed);
    assert_eq!(gemm_bf16_start(default_bf16_tactic()), GemmStage::Vendor);

    assert_eq!(
        gemm_bf16(&ctx, &tensor(DType::F16, &[4, 32], 0x100), &weight),
        Err(Error::Operands("gemm_bf16 expects BF16 operands", DType::F16, DType::BF16))
    );
    assert!(gemm_bf16(&ctx, &tensor(DType::BF16, &[4, 31], 0x100), &weight).is_err());
    let mut far = weight.clone();
    far.device = Device::Cpu;
    assert_eq!(
        gemm_bf16(&ctx, &activation, &far),
        Err(Error::DeviceMismatch {
            expected: Device::Cuda(0),
            got: Device::Cpu,
        })
    );
    assert!(launch_tactic_bf16(
        ctx.cublas(),
        &request.key,
        &request.activation,
        &request.weight,
        &output,
        tactic(TacticBackend::Cutlass, 0)
    )
    .is_err());
    let tune = autotune_request_bf16(&NO_CUTLASS, &request.key).unwrap();
    assert_eq!((tune.elements, tune.output_bytes), (64, 128));
}

#[test]
fn geglu_runs_end_after_one_fallback() {
    let chosen = tactic(TacticBackend::CublasLtCustomSplitGeGluCutlassBf16, 1);
    let mut run = geglu_start(true, false, decomposed_geglu_tactic(), true);
    let mut stages = vec![run.stage];
    for event in [
        GegluEvent::Succeeded,
        GegluEvent::Resolved {
            tactic: chosen,
            uses_gate: true,
        },
        GegluEvent::Succeeded,
        GegluEvent::Succeeded,
        GegluEvent::Succeeded,
        GegluEvent::Failed,
        GegluEvent::Succeeded,
        GegluEvent::Succeeded,
        GegluEvent::Failed,
    ] {
        run = run.advance(event);
        stages.push(run.stage);
    }
    assert_eq!(
        stages,
        vec![
            GegluStage::ResolveDependency,
            GegluStage::ResolveFused,
            GegluStage::AllocateGate,
            GegluStage::AllocateOutput,
            GegluStage::Prepare,
            GegluStage::Launch,
            GegluStage::Fallback,
            GegluStage::FallbackPrepare,
            GegluStage::FallbackLaunch,
            GegluStage::Failed,
        ]
    );
    // The default itself has nothing to fall back to.
    let failed = geglu_start(false, true, chosen, false)
        .advance(GegluEvent::Resolved {
            tactic: chosen,
            uses_gate: false,
        })
        .advance(GegluEvent::Succeeded)
        .advance(GegluEvent::Failed);
    assert_eq!(failed.stage, GegluStage::Failed);
}

#[test]
fn bf16_geglu_chooses_by_weight_layout() {
    let ctx = context();
    let activation = tensor(DType::BF16, &[522, 2048], 0x100);
    let weight = tensor(DType::BF16, &[2048, 32768], 0x200);
    let plain =
        gemm_bf16_geglu_fused(&ctx, &activation, &weight, false, None, None).unwrap();
    assert_eq!((plain.rows, plain.cols), (522, 16384));
    assert_eq!(plain.key.epilogue, Epilogue::GeGlu);
    assert_eq!(plain.plain_key.epilogue, Epilogue::Plain);
    assert!(plain.plain_weight.is_some() && plain.dual_weight.is_none());
    let dual = gemm_bf16_geglu_fused(&ctx, &activation, &weight, true, None, None).unwrap();
    assert!(dual.plain_weight.is_none() && dual.dual_weight.is_some());
    let odd = tensor(DType::BF16, &[2048, 7], 0x200);
    assert!(gemm_bf16_geglu_fused(&ctx, &activation, &odd, false, None, None).is_err());
    assert!(
        gemm_bf16_geglu_fused(&ctx, &activation, &weight, false, Some(&odd), None).is_err()
    );

    assert_eq!(
        default_bf16_geglu_tactic(&ctx, &plain.key, true, false, false),
        Ok(decomposed_geglu_tactic())
    );
    assert_eq!(
        default_bf16_geglu_tactic(&ctx, &plain.key, false, true, false),
        Ok(tactic(TacticBackend::CutlassBf16DualGeGluM522, 0))
    );
    assert!(default_bf16_geglu_tactic(&ctx, &plain.key, false, false, true).is_err());
    assert_eq!(bf16_geglu_gate_bytes(2, 8), Ok(32));
    assert!(other(bf16_geglu_gate_bytes(usize::MAX, 8)).contains("gate size overflow"));

    let output = span(0x900, 1 << 30);
    let launch = |build: &BuildFeatures, gate: Option<CudaBuffer>, tactic: TacticId| {
        launch_bf16_geglu_tactic(
            build,
            ctx.cublas(),
            &plain.key,
            None,
            &activation.buffer,
            plain.plain_weight,
            Some(weight.buffer),
            None,
            gate,
            &output,
            tactic,
        )
    };
    assert_eq!(
        other(launch(&CUTLASS, None, decomposed_geglu_tactic())),
        "decomposed BF16 GeGLU has no gate buffer"
    );
    assert_eq!(
        other(launch(&CUTLASS, Some(output), decomposed_geglu_tactic())),
        "decomposed BF16 GeGLU has no prepared GEMM plan"
    );
    let dual = tactic(TacticBackend::CutlassBf16DualGeGluM522, 0);
    assert!(matches!(launch(&CUTLASS, None, dual), Ok(Bf16GegluLaunch::Dual { .. })));
    assert!(launch(&NO_CUTLASS, None, dual).is_err());
    assert!(launch(&CUTLASS, None, tactic(TacticBackend::CutlassBf16DualGeGluM533, 0)).is_err());
    assert!(other(launch(&CUTLASS, None, tactic(TacticBackend::CutlassBf16GeGluSm89, 0)))
        .contains("SM89"));
    assert_eq!(
        other(prepare_bf16_geglu_tactic(
            &CUTLASS,
            &plain.key,
            &plain.plain_key,
            None,
            decomposed_geglu_tactic(),
            None
        )),
        "decomposed BF16 GeGLU has no plain-weight GEMM plan"
    );
    let offered = vec![decomposed_geglu_tactic(), dual];
    let tune =
        autotune_request_bf16_geglu(&ctx, &plain.key, true, false, false, &offered).unwrap();
    assert_eq!(tune.candidates, vec![decomposed_geglu_tactic()]);
    assert_eq!(tune.elements, 522 * 16384);
}

#[test]
fn fp8_product_checks_layout_scales_and_shape() {
    let ctx = context();
    let activation = tensor(DType::F8E4M3, &[4, 32], 0x100);
    let values = tensor(DType::F8E4M3, &[32, 16], 0x200);
    let view = Fp8WeightView {
        values_e4m3: &values,
        scale: ONE,
        dual_geglu_interleaved: false,
        dual_geglu_auto_interleaved: None,
    };
    let request = gemm_fp8(&ctx, &activation, ONE, view, true).unwrap();
    let decoded = request.emulation.unwrap();
    assert_eq!((decoded.activation, decoded.weight), (4 * 32 * 2, 32 * 16 * 2));
    let calls = fp8_emulation_calls(
        ctx.cublas(),
        &request,
        &span(0x10, 256),
        &span(0x20, 1024),
        &span(0x30, 128),
    )
    .unwrap();
    assert_eq!((calls.activation.elements, calls.weight.elements), (128, 512));
    assert!(matches!(calls.gemm, CublasCall::GemmEx(_)));
    let interleaved = Fp8WeightView {
        dual_geglu_interleaved: true,
        ..view
    };
    assert!(other(gemm_fp8(&ctx, &activation, ONE, interleaved, false)).contains("interleaved"));
    for scale in [0.0f32, -1.0, f32::NAN, f32::INFINITY] {
        assert!(other(gemm_fp8(&ctx, &activation, scale.to_bits(), view, false))
            .contains("finite and positive"));
    }
    assert!(gemm_fp8(&ctx, &tensor(DType::F8E4M3, &[4, 31], 0x100), ONE, view, false).is_err());

    let native = gemm_fp8(&ctx, &activation, ONE, view, false).unwrap();
    assert_eq!(native.emulation, None);
    let output = span(0x300, 128);
    let cutlass = tactic(TacticBackend::Cutlass, 2);
    assert!(matches!(
        gemm_fp8_launch(&CUTLASS, &native, cutlass, &output),
        Ok(Fp8Launch::Cutlass { tactic: 2, .. })
    ));
    assert!(gemm_fp8_launch(&NO_CUTLASS, &native, cutlass, &output).is_err());
    assert!(matches!(
        gemm_fp8_launch(
            &NO_CUTLASS,
            &native,
            tactic(TacticBackend::CublasLtCustomSplitSerial, 1),
            &output
        ),
        Ok(Fp8Launch::CublasLt { form: Fp8Form::Split, .. })
    ));
    assert_eq!(gemm_fp8_advance(Fp8Stage::Selected, cutlass, false), Fp8Stage::Fallback);
    assert_eq!(
        gemm_fp8_advance(Fp8Stage::Selected, tactic(TacticBackend::Vendor, 0), false),
        Fp8Stage::Failed
    );
    assert_eq!(gemm_fp8_advance(Fp8Stage::Fallback, cutlass, true), Fp8Stage::Vendor);
    assert_eq!(gemm_fp8_advance(Fp8Stage::Vendor, cutlass, true), Fp8Stage::Done);
}

#[test]
fn dynamic_fp8_needs_native_aligned_operands() {
    let ctx = context();
    let activation = tensor(DType::F8E4M3, &[10, 2048], 0x100);
    let rows = tensor(DType::F32, &[10], 0x200);
    let values = tensor(DType::F8E4M3, &[1024, 2048], 0x300);
    let channels = tensor(DType::F32, &[1024], 0x400);
    let view = DynamicFp8WeightView {
        values_e4m3: &values,
        channel_scales: &channels,
    };
    let bias = tensor(DType::BF16, &[1024], 0x500);
    let launch =
        gemm_fp8_dynamic_bf16(&CUTLASS, &ctx, &activation, &rows, view, Some(&bias), false)
            .unwrap();
    assert_eq!((launch.tactic, launch.bias), (1, Some(0x500)));
    assert_eq!(launch.output_bytes, 10 * 1024 * 2);
    assert!(other(gemm_fp8_dynamic_bf16(
        &CUTLASS, &ctx, &activation, &rows, view, None, true
    ))
    .contains("native FP8"));
    assert!(other(gemm_fp8_dynamic_bf16(
        &NO_CUTLASS, &ctx, &activation, &rows, view, None, false
    ))
    .contains("SM100-family"));
    assert!(gemm_fp8_dynamic_bf16(&CUTLASS, &ctx, &activation, &channels, view, None, false)
        .is_err());
    for (m, n, k, expected) in [
        (10, 2560, 1024, 11),
        (217, 22016, 2048, 12),
        (648, 6848, 1280, 6),
        (64, 1, 1, 1),
        (256, 10_000, 1, 0),
        (256, 1, 10_000, 6),
        (256, 2_500, 1, 8),
        (256, 1, 1, 3),
        (257, 5_000, 1, 6),
        (257, 1, 3_000, 8),
        (257, 2_500, 1, 6),
        (257, 1, 1, 8),
    ] {
        assert_eq!(dynamic_fp8_tactic(m, n, k), expected);
    }
}

#[test]
fn fp8_geglu_is_declined_without_native_cores() {
    let ctx = context();
    let activation = tensor(DType::F8E4M3, &[522, 2048], 0x100);
    let values = tensor(DType::F8E4M3, &[2048, 32768], 0x200);
    let view = Fp8WeightView {
        values_e4m3: &values,
        scale: ONE,
        dual_geglu_interleaved: true,
        dual_geglu_auto_interleaved: None,
    };
    assert_eq!(gemm_fp8_geglu_fused(&ctx, &activation, ONE, view, ONE, true), Ok(None));
    let request = gemm_fp8_geglu_fused(&ctx, &activation, ONE, view, ONE, false)
        .unwrap()
        .unwrap();
    assert!(request.plain_weight.is_none() && request.interleaved_weight.is_some());
    assert_eq!(
        default_fp8_geglu_tactic(&CUTLASS, &ctx, &request.key, false, true),
        Ok(tactic(TacticBackend::CutlassFp8DualGeGlu, 0))
    );
    assert!(default_fp8_geglu_tactic(&NO_CUTLASS, &ctx, &request.key, false, true).is_err());
    let output = span(0x900, 522 * 16384);
    let launch = |tactic: TacticId| {
        launch_fp8_geglu_tactic(
            &CUTLASS,
            &request.key,
            None,
            &request.activation,
            Some(values.buffer),
            request.interleaved_weight,
            Some(span(0x800, 1 << 30)),
            &output,
            request.alpha,
            ONE,
            tactic,
        )
    };
    assert!(matches!(
        launch(tactic(TacticBackend::CutlassFp8DualGeGlu, 0)),
        Ok(Fp8GegluLaunch::Dual { .. })
    ));
    assert!(matches!(
        launch(tactic(TacticBackend::CublasLtCustomSplitGeGluCutlassM522Explicit2Sm, 1)),
        Ok(Fp8GegluLaunch::Split { tactic: 3, .. })
    ));
    assert!(launch(tactic(TacticBackend::CublasLtCustomSplitGeGluCutlass, 1)).is_err());
    assert!(launch(decomposed_geglu_tactic()).is_err());
    let tune = autotune_request_fp8_geglu(
        &request.key,
        false,
        true,
        &vec![
            decomposed_geglu_tactic(),
            tactic(TacticBackend::CutlassFp8DualGeGlu, 0),
        ],
    )
    .unwrap();
    assert_eq!(tune.candidates, vec![tactic(TacticBackend::CutlassFp8DualGeGlu, 0)]);
    assert_eq!(tune.reference, tactic(TacticBackend::CutlassFp8DualGeGlu, 0));
    assert_eq!(tune.decoded_bytes, 522 * 16384 * 2);
}

#[test]
fn fp8_autotune_compares_in_half_precision() {
    let ctx = context();
    let key = GemmTuningKey {
        op: GemmOp::Fp8F16,
        ..tuning_key(&ctx, 4, 16, 32)
    };
    let tune = autotune_request_fp8(&NO_CUTLASS, &key).unwrap();
    assert_eq!((tune.elements, tune.output_bytes), (64, 128));
    let sizes = tune.reference_bytes.unwrap();
    assert_eq!((sizes.activation, sizes.weight), (256, 1024));
    let calls = fp8_reference_calls(
        ctx.cublas(),
        &key,
        &span(0x10, 128),
        &span(0x20, 512),
        Factor {
            left: 2.0f32.to_bits(),
            right: 3.0f32.to_bits(),
        },
        &span(0x30, 256),
        &span(0x40, 1024),
        &span(0x50, 128),
    )
    .unwrap();
    // The activation is decoded as it is; the weight carries the factor.
    assert_eq!(f32::from_bits(calls.activation.scale.left) * f32::from_bits(calls.activation.scale.right), 1.0);
    assert_eq!(calls.weight.scale.left, 2.0f32.to_bits());
    let fused = autotune_request_fp8_fused(&NO_CUTLASS, &key, DType::F8E4M3).unwrap();
    assert_eq!((fused.output_bytes, fused.decoded_bytes), (64, Some(128)));
    assert!(matches!(
        copy_fused_output(&span(0x10, 64), Some(span(0x20, 128)), 64, DType::F8E4M3, ONE),
        Ok(FusedReadback::Decoded { source: 0x20, elements: 64, .. })
    ));
    assert!(matches!(
        copy_fused_output(&span(0x10, 128), None, 64, DType::F16, ONE),
        Ok(FusedReadback::Direct { source: 0x10, elements: 64 })
    ));
    assert!(copy_fused_output(&span(0x10, 64), None, 64, DType::F8E4M3, ONE).is_err());
    assert!(copy_fused_output(&span(0x10, 64), None, 64, DType::F32, ONE).is_err());
}

#[test]
fn configured_ranks_beat_persisted_ones() {
    let activation = tensor(DType::F8E4M3, &[41, 1536], 0x100);
    let values = tensor(DType::F8E4M3, &[1536, 1536], 0x200);
    let view = Fp8WeightView {
        values_e4m3: &values,
        scale: ONE,
        dual_geglu_interleaved: false,
        dual_geglu_auto_interleaved: None,
    };
    let mut ctx = context();
    let key = GemmTuningKey {
        op: GemmOp::Fp8Bf16,
        ..apxinf_cuda::kernels::gemm::fp8::bf16_output_tuning_key(&ctx, 41, 1536, 1536)
    };
    ctx.install_tuning(session(
        TuningMode::Inference,
        5,
        vec![record(key, tactic(TacticBackend::CublasLt, 9), TacticMatch::Exact)],
    ));
    let run = |value: EnvironmentValue, native: bool, may_prepare: bool| {
        gemm_fp8_bf16(&ctx, &activation, ONE, view, native, may_prepare, &value)
    };
    let rank = |value: EnvironmentValue| match run(value, true, true).unwrap().configure {
        Some(ProviderCall::Fp8Bf16Heuristic { rank, .. }) => Some(rank),
        None => None,
        call => panic!("unexpected call {call:?}"),
    };
    assert_eq!(rank(EnvironmentValue::Unset), Some(9));
    assert_eq!(rank(EnvironmentValue::Text("41,1536,1536=3".to_string())), Some(3));
    assert_eq!(rank(EnvironmentValue::Text("1,1,1=3".to_string())), Some(9));
    assert!(run(EnvironmentValue::NotUnicode, true, true).is_err());
    assert!(run(EnvironmentValue::Unset, false, true).is_err());
    let captured = run(EnvironmentValue::NotUnicode, true, false).unwrap();
    assert_eq!((captured.configure, captured.prepare), (None, None));
    assert_eq!(configured_fp8_bf16_heuristic(&EnvironmentValue::Unset, 1, 1, 1), Ok(None));
    for text in ["41", "a,b,c=1", "1,1=1", "1,1,1=x", "1,1,1=-1"] {
        assert!(parse_fp8_bf16_heuristic(text, 1, 1, 1).is_err());
    }
    assert_eq!(parse_fp8_bf16_heuristic(";;1,1,1=5;", 1, 1, 1), Ok(Some(5)));

    let bias = tensor(DType::BF16, &[1536], 0x500);
    let fused = gemm_fp8_bias_bf16(
        &ctx,
        &activation,
        ONE,
        view,
        &bias,
        true,
        true,
        &EnvironmentValue::Unset,
    )
    .unwrap();
    assert_eq!(fused.bias, Some(0x500));
    assert!(matches!(fused.prepare, Some(ProviderCall::Fp8BiasBf16Prepare { bias: 0x500, .. })));
    assert_eq!(exact_fp8_tactic(&ctx, 41, 1536, 1536), None);
}

#[test]
fn epilogues_have_native_numbers() {
    assert_eq!(fused_epilogue_id(Epilogue::Bias), Ok(1));
    assert_eq!(fused_epilogue_id(Epilogue::BiasGelu), Ok(2));
    assert_eq!(fused_epilogue_id(Epilogue::BiasResidual), Ok(3));
    assert!(fused_epilogue_id(Epilogue::GeGlu).is_err());
    assert!(set_cublaslt_gemm_heuristic(1, 1, 1, -1).is_err());
    assert!(set_cublaslt_gemm_heuristic(1, 1, 1, 63).is_ok());
}

#[test]
fn interleaved_weights_reach_only_the_dual_kernel() {
    let ctx = context();
    let activation = tensor(DType::F8E4M3, &[522, 2048], 0x100);
    let values = tensor(DType::F8E4M3, &[2048, 32768], 0x200);
    let bias = tensor(DType::BF16, &[32768], 0x300);
    let view = Fp8WeightView {
        values_e4m3: &values,
        scale: ONE,
        dual_geglu_interleaved: true,
        dual_geglu_auto_interleaved: None,
    };
    assert!(gemm_fp8(&ctx, &activation, ONE, view, false).is_err());
    let value = EnvironmentValue::Unset;
    assert!(gemm_fp8_bf16(&ctx, &activation, ONE, view, true, true, &value).is_err());
    assert!(
        gemm_fp8_bias_bf16(&ctx, &activation, ONE, view, &bias, true, true, &value).is_err()
    );
    let request = gemm_fp8_geglu_fused(&ctx, &activation, ONE, view, ONE, false)
        .unwrap()
        .unwrap();
    let run = |backend: TacticBackend| {
        launch_fp8_geglu_tactic(
            &CUTLASS,
            &request.key,
            None,
            &request.activation,
            request.plain_weight,
            request.interleaved_weight,
            Some(span(0x800, 1 << 30)),
            &span(0x900, 522 * 16384),
            request.alpha,
            request.output_scale,
            tactic(backend, 0),
        )
    };
    assert!(matches!(
        run(TacticBackend::CutlassFp8DualGeGlu),
        Ok(Fp8GegluLaunch::Dual { weight: 0x200, .. })
    ));
    assert!(run(TacticBackend::GemmThenGeGlu).is_err());
    assert!(run(TacticBackend::Vendor).is_err());
}

#[test]
fn refused_shapes_are_reported() {
    let ctx = context();
    let shape = |rank: usize, first: usize, second: usize, third: usize| Shape {
        rank,
        first,
        second,
        third,
        fourth: 0,
    };
    let a = tensor(DType::BF16, &[4, 32], 0x100);
    let b = tensor(DType::BF16, &[2, 3, 5], 0x200);
    assert_eq!(
        gemm_bf16(&ctx, &a, &b),
        Err(Error::Shapes {
            text: "gemm_bf16 shape mismatch",
            left: shape(2, 4, 32, 0),
            right: shape(3, 2, 3, 5),
        })
    );
    let activation = tensor(DType::F8E4M3, &[4, 32], 0x100);
    let values = tensor(DType::F8E4M3, &[32, 8], 0x200);
    let view = Fp8WeightView {
        values_e4m3: &values,
        scale: ONE,
        dual_geglu_interleaved: false,
        dual_geglu_auto_interleaved: None,
    };
    let value = EnvironmentValue::Unset;
    let run = |bias: &Tensor| {
        gemm_fp8_bias_bf16(&ctx, &activation, ONE, view, bias, true, true, &value).unwrap_err()
    };
    assert_eq!(
        run(&tensor(DType::F32, &[8], 0x300)),
        Error::BiasOperands(
            "FP8 fused-bias GEMM expects E4M3/E4M3/BF16",
            DType::F8E4M3,
            DType::F8E4M3,
            DType::F32,
        )
    );
    assert_eq!(
        run(&tensor(DType::BF16, &[9], 0x300)),
        Error::BiasShapes {
            text: "FP8 fused-bias GEMM shape mismatch",
            left: shape(2, 4, 32, 0),
            right: shape(2, 32, 8, 0),
            bias: shape(1, 9, 0, 0),
        }
    );
}

#[test]
fn geglu_defaults_are_installed_by_the_providers() {
    let ctx = context();
    let untuned = session(TuningMode::Inference, 1, vec![]);
    let builds = [
        NO_CUTLASS,
        CUTLASS,
        BuildFeatures {
            cutlass_bf16_sm89: true,
            ..NO_CUTLASS
        },
    ];
    let install = |build: &BuildFeatures, key: &GemmTuningKey, tactic: TacticId| {
        prepare(build, key, tactic, None).map(|_| ())
    };
    for op in [GemmOp::Bf16, GemmOp::Fp8F16] {
        let key = GemmTuningKey {
            op,
            epilogue: Epilogue::GeGlu,
            ..tuning_key(&ctx, 8, 1024, 64)
        };
        for build in &builds {
            let mut cache = GemmPlanCache::new();
            let plan = cache
                .resolve(&untuned, &key, decomposed_geglu_tactic(), true, |key, tactic| {
                    install(build, key, tactic)
                })
                .unwrap();
            assert_eq!(plan.tactic, decomposed_geglu_tactic());
            let fallback = cache
                .fallback_to(&untuned, &key, decomposed_geglu_tactic(), true, |key, tactic| {
                    install(build, key, tactic)
                })
                .unwrap();
            assert_eq!(fallback.tactic, decomposed_geglu_tactic());
        }
        // No product of its own is a GeGLU operator.
        let plain = GemmTuningKey {
            epilogue: Epilogue::Plain,
            ..key
        };
        assert!(install(&CUTLASS, &plain, decomposed_geglu_tactic()).is_err());
        assert!(install(&CUTLASS, &key, tactic(TacticBackend::GemmThenGeGlu, 1)).is_err());
    }
    let geglu = |op: GemmOp, m: usize| GemmTuningKey {
        op,
        epilogue: Epilogue::GeGlu,
        ..tuning_key(&ctx, m, 32768, 2048)
    };
    for (op, m, backend) in [
        (GemmOp::Fp8F16, 522, TacticBackend::CutlassFp8DualGeGlu),
        (GemmOp::Fp8F16, 533, TacticBackend::CutlassFp8DualGeGlu),
        (GemmOp::Bf16, 522, TacticBackend::CutlassBf16DualGeGluM522),
        (GemmOp::Bf16, 533, TacticBackend::CutlassBf16DualGeGluM533),
    ] {
        let key = geglu(op, m);
        let default = match op {
            GemmOp::Bf16 => default_bf16_geglu_tactic(&ctx, &key, false, true, false),
            _ => default_fp8_geglu_tactic(&CUTLASS, &ctx, &key, false, true),
        };
        assert_eq!(default, Ok(tactic(backend, 0)));
        assert!(install(&CUTLASS, &key, tactic(backend, 0)).is_ok());
        assert!(install(&CUTLASS, &geglu(op, 521), tactic(backend, 0)).is_err());
        let plain = GemmTuningKey {
            epilogue: Epilogue::Plain,
            ..key
        };
        assert!(install(&CUTLASS, &plain, tactic(backend, 0)).is_err());
    }
    let sm89 = tactic(TacticBackend::CutlassBf16GeGluSm89, 0);
    let key = geglu(GemmOp::Bf16, 8);
    assert!(install(&builds[2], &key, sm89).is_ok());
    assert!(install(&CUTLASS, &key, sm89).is_err());
    assert!(install(&builds[2], &geglu(GemmOp::Fp8F16, 8), sm89).is_err());
}
