use apxinf_cuda::kernels::gemm::bf16::{bf16_geglu_tactic_uses_gate, validate_bf16_dual_geglu_shape};
use apxinf_cuda::kernels::gemm::fp8::{
    fp8_geglu_tactic_uses_gate, parse_fp8_bf16_heuristic, validate_bf16_dual_geglu_record,
    validate_fp8_dual_geglu_record, validate_fp8_interleaved_default,
};
use apxinf_cuda::kernels::gemm::geglu::decomposed_geglu_tactic;
use apxinf_cuda::kernels::gemm::plan::{default_bf16_tactic, GemmPlanCache};
use apxinf_cuda::kernels::gemm::providers::cublaslt::{candidates, geglu_candidates, prepare};
use apxinf_cuda::tuning::{
    CublasLtCustomConfig, DeviceFingerprint, Epilogue, GemmLayout, GemmOp, GemmTuningKey,
    ScaleMode, TacticBackend, TacticId, TuningDType,
};

#[test]
fn bf16_dual_fused_tactic_does_not_require_gate_buffer() {
    assert!(!bf16_geglu_tactic_uses_gate(TacticId {
        backend: TacticBackend::CutlassBf16DualGeGluM522,
        value: 0,
    }));
    assert!(bf16_geglu_tactic_uses_gate(decomposed_geglu_tactic()));
}

#[test]
fn bf16_dual_geglu_shape_is_exact_only() {
    assert!(validate_bf16_dual_geglu_shape(522, 32768, 2048, 522).is_ok());
    assert!(validate_bf16_dual_geglu_shape(533, 32768, 2048, 533).is_ok());
    assert!(validate_bf16_dual_geglu_shape(533, 32768, 2048, 522).is_err());
    assert!(validate_bf16_dual_geglu_shape(522, 32768, 2048, 533).is_err());
    assert!(validate_bf16_dual_geglu_shape(521, 32768, 2048, 522).is_err());
    assert!(validate_bf16_dual_geglu_shape(534, 32768, 2048, 533).is_err());
    assert!(validate_bf16_dual_geglu_shape(522, 32752, 2048, 522).is_err());
    assert!(validate_bf16_dual_geglu_shape(522, 32768, 1024, 522).is_err());
}

fn geglu_key(sm: u32, m: usize) -> GemmTuningKey {
    GemmTuningKey {
        op: GemmOp::Fp8F16,
        device: DeviceFingerprint {
            sm,
            multiprocessor_count: 20,
        },
        m,
        n: 32768,
        k: 2048,
        activation_dtype: TuningDType::F8E4M3,
        weight_dtype: TuningDType::F8E4M3,
        output_dtype: TuningDType::F8E4M3,
        layout: GemmLayout::RowMajor,
        scale_mode: ScaleMode::PerTensor,
        epilogue: Epilogue::GeGlu,
        workspace_limit: usize::MAX,
    }
}

#[test]
fn bf16_output_tactic_map_is_exact_and_strict() {
    let spec = "41,1536,1536=3;1,3072,1536=4";
    assert_eq!(
        parse_fp8_bf16_heuristic(spec, 41, 1536, 1536).unwrap(),
        Some(3)
    );
    assert_eq!(
        parse_fp8_bf16_heuristic(spec, 41, 1536, 6144).unwrap(),
        None
    );
    assert!(parse_fp8_bf16_heuristic("41,1536=3", 41, 1536, 1536).is_err());
    assert!(parse_fp8_bf16_heuristic("41,1536,1536=64", 41, 1536, 1536).is_err());
}

#[test]
fn dual_backend_accepts_only_validated_m_values_and_tactic_zero() {
    for m in [522, 533] {
        assert!(validate_fp8_dual_geglu_record(GemmOp::Fp8F16, m, 32768, 2048, 0).is_ok());
    }

    for (op, m, n, k, tactic) in [
        (GemmOp::Bf16, 533, 32768, 2048, 0),
        (GemmOp::Fp8F16, 521, 32768, 2048, 0),
        (GemmOp::Fp8F16, 534, 32768, 2048, 0),
        (GemmOp::Fp8F16, 533, 16384, 2048, 0),
        (GemmOp::Fp8F16, 533, 32768, 1024, 0),
        (GemmOp::Fp8F16, 533, 32768, 2048, 1),
    ] {
        assert!(validate_fp8_dual_geglu_record(op, m, n, k, tactic).is_err());
    }
}

#[test]
fn interleaved_only_default_requires_sm110_and_exact_shape() {
    assert!(validate_fp8_interleaved_default(110, &geglu_key(110, 522), true).is_ok());
    assert!(validate_fp8_interleaved_default(89, &geglu_key(89, 522), true).is_err());
    assert!(validate_fp8_interleaved_default(110, &geglu_key(110, 522), false).is_err());
    assert!(validate_fp8_interleaved_default(110, &geglu_key(110, 778), true).is_err());
}

#[test]
fn fp8_dual_fused_tactic_does_not_require_gate_buffer() {
    assert!(!fp8_geglu_tactic_uses_gate(TacticId {
        backend: TacticBackend::CutlassFp8DualGeGlu,
        value: 0,
    }));
    assert!(fp8_geglu_tactic_uses_gate(decomposed_geglu_tactic()));
}

#[test]
fn bf16_dual_geglu_backend_is_exact_m533_tactic_zero() {
    assert!(validate_bf16_dual_geglu_record(
        GemmOp::Bf16,
        522,
        32768,
        2048,
        0,
        522,
        "BF16 dual GeGLU",
    )
    .is_ok());
    assert!(validate_bf16_dual_geglu_record(
        GemmOp::Bf16,
        533,
        32768,
        2048,
        0,
        533,
        "BF16 dual GeGLU",
    )
    .is_ok());
    assert!(validate_bf16_dual_geglu_record(
        GemmOp::Bf16,
        533,
        32768,
        2048,
        0,
        522,
        "BF16 dual GeGLU",
    )
    .is_err());

    for (op, m, n, k, tactic) in [
        (GemmOp::Fp8F16, 533, 32768, 2048, 0),
        (GemmOp::Bf16, 522, 32768, 2048, 0),
        (GemmOp::Bf16, 534, 32768, 2048, 0),
        (GemmOp::Bf16, 533, 16384, 2048, 0),
        (GemmOp::Bf16, 533, 32768, 1024, 0),
        (GemmOp::Bf16, 533, 32768, 2048, 1),
    ] {
        assert!(
            validate_bf16_dual_geglu_record(op, m, n, k, tactic, 533, "BF16 dual GeGLU",).is_err()
        );
    }
}

fn plan_key() -> GemmTuningKey {
    GemmTuningKey {
        op: GemmOp::Bf16,
        device: DeviceFingerprint {
            sm: 89,
            multiprocessor_count: 128,
        },
        m: 1,
        n: 1024,
        k: 1024,
        activation_dtype: TuningDType::Bf16,
        weight_dtype: TuningDType::Bf16,
        output_dtype: TuningDType::Bf16,
        layout: GemmLayout::RowMajor,
        scale_mode: ScaleMode::Unscaled,
        epilogue: Epilogue::Plain,
        workspace_limit: usize::MAX,
    }
}

#[test]
fn cache_miss_during_capture_does_not_prepare_provider() {
    let mut cache = GemmPlanCache::new();
    let mut prepare_called = false;
    let error = cache
        .prepare_and_cache_with(
            &plan_key(),
            default_bf16_tactic(),
            None,
            0,
            false,
            |_, _| {
                prepare_called = true;
                Ok(())
            },
        )
        .unwrap_err();

    assert!(!prepare_called);
    assert!(error.message().contains("plan cache miss"));
    assert!(error.message().contains("before capture"));
}

fn key(epilogue: Epilogue) -> GemmTuningKey {
    GemmTuningKey {
        epilogue,
        ..geglu_key(110, 522)
    }
}

#[test]
fn plain_fp8_candidates_include_custom_and_split_families() {
    let candidates = candidates(&key(Epilogue::Plain), 2);
    assert!(candidates
        .iter()
        .any(|candidate| candidate.backend == TacticBackend::CublasLtCustom));
    assert!(candidates
        .iter()
        .any(|candidate| { candidate.backend == TacticBackend::CublasLtCustomSplitSerial }));
}

#[test]
fn geglu_candidates_are_shape_specific() {
    let candidates = geglu_candidates(&key(Epilogue::GeGlu));
    assert!(candidates.iter().any(|candidate| {
        candidate.backend == TacticBackend::CublasLtCustomSplitGeGluCutlassM522Explicit2Sm
    }));
}

#[test]
fn plain_cublaslt_backends_reject_geglu_keys_before_native_prepare() {
    let config = CublasLtCustomConfig {
        tile_id: 15,
        custom_option: 0,
        stages_id: 0,
        cluster_shape_id: 0,
    };
    for backend in [
        TacticBackend::CublasLt,
        TacticBackend::CublasLtCustom,
        TacticBackend::CublasLtCustomSplitSerial,
    ] {
        let value = if backend == TacticBackend::CublasLt {
            0
        } else {
            18_377_904
        };
        for decoded in [None, Some(config)] {
            assert!(prepare(&key(Epilogue::GeGlu), TacticId { backend, value }, decoded).is_err());
        }
    }
}
