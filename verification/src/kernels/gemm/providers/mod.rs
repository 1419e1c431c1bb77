//! Statically composed GEMM backend providers.

pub mod cublaslt;
pub mod cutlass;

use crate::error::Error;
use crate::tuning::{
    BuildFeatures, CublasLtCustomConfig, Epilogue, GemmOp, GemmTuningKey, TacticBackend,
    TacticCandidate, TacticId,
};
use vstd::prelude::*;

verus! {

/// The extents of a product as the native interface takes them.
#[derive(Clone, Copy, Debug, PartialEq, Eq, Structural)]
pub struct Dims {
    pub m: i32,
    pub n: i32,
    pub k: i32,
}

pub open spec fn native_dims(m: usize, n: usize, k: usize) -> Dims {
    Dims { m: m as i32, n: n as i32, k: k as i32 }
}

impl Dims {
    pub fn new(m: usize, n: usize, k: usize) -> (dims: Dims)
        ensures
            dims == native_dims(m, n, k),
    {
        Dims { m: m as i32, n: n as i32, k: k as i32 }
    }
}

/// A native call that configures or builds a provider's resources for one
/// shape. Each returns a cuBLAS status.
#[derive(Clone, Copy, Debug, PartialEq, Eq, Structural)]
pub enum ProviderCall {
    /// `apxinf_static_set_cublaslt_bf16_gemm_heuristic`.
    Bf16Heuristic { dims: Dims, rank: i32 },
    /// `apxinf_static_set_cublaslt_bf16_gemm_custom`.
    Bf16Custom { dims: Dims, config: CublasLtCustomConfig },
    /// `apxinf_static_set_cublaslt_bf16_gemm_split_custom`.
    Bf16SplitCustom { dims: Dims, config: CublasLtCustomConfig },
    /// `apxinf_static_prepare_bf16_gemm`, or its split form.
    Bf16Prepare { dims: Dims, split: bool },
    /// `apxinf_static_set_cublaslt_gemm_heuristic`.
    Fp8Heuristic { dims: Dims, rank: i32 },
    /// `apxinf_static_set_cublaslt_fp8_fused_heuristic`.
    Fp8FusedHeuristic { dims: Dims, epilogue: i32, rank: i32 },
    /// `apxinf_static_set_cublaslt_fp8_gemm_custom`.
    Fp8Custom { dims: Dims, config: CublasLtCustomConfig },
    /// `apxinf_static_set_cublaslt_fp8_gemm_bias_custom`.
    Fp8BiasCustom { dims: Dims, epilogue: i32, config: CublasLtCustomConfig },
    /// `apxinf_static_set_cublaslt_fp8_gemm_split_custom`.
    Fp8SplitCustom { dims: Dims, config: CublasLtCustomConfig },
    /// `apxinf_static_prepare_fp8_gemm_f16`.
    Fp8Prepare { dims: Dims },
    /// `apxinf_static_prepare_fp8_gemm_split_f16`.
    Fp8PrepareSplit { dims: Dims },
    /// `apxinf_static_set_cublaslt_fp8_gemm_bf16_heuristic`.
    Fp8Bf16Heuristic { dims: Dims, rank: i32 },
    /// `apxinf_static_prepare_fp8_gemm_bf16`.
    Fp8Bf16Prepare { dims: Dims },
    /// `apxinf_static_prepare_fp8_gemm_bias_bf16`.
    Fp8BiasBf16Prepare { bias: usize, dims: Dims },
}

/// The native calls that install a tactic, in order.
#[derive(Clone, Copy, Debug, PartialEq, Eq, Structural)]
pub struct Preparation {
    pub configure: Option<ProviderCall>,
    pub build: Option<ProviderCall>,
}

pub const NO_PROVIDER: &'static str = "no GEMM provider prepares this tactic";

pub const INVALID_VENDOR: &'static str = "invalid vendor tactic";

/// Nothing to install.
pub open spec fn no_calls() -> Preparation {
    Preparation { configure: None, build: None }
}

/// What installs a tactic for a key, or why no provider can. `config` is what
/// the tactic's number decodes to.
pub open spec fn preparation(
    build: BuildFeatures,
    key: GemmTuningKey,
    tactic: TacticId,
    config: Option<CublasLtCustomConfig>,
) -> Result<Preparation, Error> {
    match tactic.backend {
        TacticBackend::Cutlass | TacticBackend::CutlassFp8DualGeGlu
        | TacticBackend::CutlassBf16DualGeGluM522 | TacticBackend::CutlassBf16DualGeGluM533 =>
            match cutlass::refusal(build, key, tactic) {
            Some(error) => Err(error),
            None => Ok(no_calls()),
        },
        TacticBackend::CublasLt | TacticBackend::CublasLtCustom | TacticBackend::CublasLtCustomBias
        | TacticBackend::CublasLtCustomSplitSerial
        | TacticBackend::CublasLtCustomSplitGeGluCutlass
        | TacticBackend::CublasLtCustomSplitGeGluCutlass2SmAuto
        | TacticBackend::CublasLtCustomSplitGeGluCutlass2SmStage3
        | TacticBackend::CublasLtCustomSplitGeGluCutlassM522Explicit2Sm
        | TacticBackend::CublasLtCustomSplitGeGluCutlassBf16 => cublaslt::preparation(
            key,
            tactic,
            config,
        ),
        TacticBackend::Vendor => if tactic.value != 0 {
            Err(Error::Number(INVALID_VENDOR, tactic.value as i64))
        } else {
            match key.op {
                GemmOp::Fp8F16 | GemmOp::Fp8Bf16 => cublaslt::preparation(
                    key,
                    TacticId { backend: TacticBackend::CublasLt, value: 0 },
                    config,
                ),
                GemmOp::Bf16 | GemmOp::W8A8 => Ok(no_calls()),
            }
        },
        TacticBackend::GemmThenGeGlu => if key.epilogue == Epilogue::GeGlu && tactic.value == 0 {
            Ok(no_calls())
        } else {
            Err(Error::Other(NO_PROVIDER))
        },
        TacticBackend::CutlassBf16GeGluSm89 => if key.op == GemmOp::Bf16 && key.epilogue
            == Epilogue::GeGlu && build.cutlass_bf16_sm89 {
            Ok(no_calls())
        } else {
            Err(Error::Other(NO_PROVIDER))
        },
    }
}

/// The native calls that install `tactic` for `key`.
pub fn prepare(
    build: &BuildFeatures,
    key: &GemmTuningKey,
    tactic: TacticId,
    config: Option<CublasLtCustomConfig>,
) -> (result: Result<Preparation, Error>)
    ensures
        result == preparation(*build, *key, tactic, config),
{
    match tactic.backend {
        TacticBackend::Cutlass | TacticBackend::CutlassFp8DualGeGlu
        | TacticBackend::CutlassBf16DualGeGluM522 | TacticBackend::CutlassBf16DualGeGluM533 => {
            cutlass::prepare(build, key, tactic)?;
            Ok(Preparation { configure: None, build: None })
        },
        TacticBackend::CublasLt | TacticBackend::CublasLtCustom | TacticBackend::CublasLtCustomBias
        | TacticBackend::CublasLtCustomSplitSerial
        | TacticBackend::CublasLtCustomSplitGeGluCutlass
        | TacticBackend::CublasLtCustomSplitGeGluCutlass2SmAuto
        | TacticBackend::CublasLtCustomSplitGeGluCutlass2SmStage3
        | TacticBackend::CublasLtCustomSplitGeGluCutlassM522Explicit2Sm
        | TacticBackend::CublasLtCustomSplitGeGluCutlassBf16 => cublaslt::prepare(
            key,
            tactic,
            config,
        ),
        TacticBackend::Vendor => if tactic.value != 0 {
            Err(Error::Number(INVALID_VENDOR, tactic.value as i64))
        } else {
            match key.op {
                // Native FP8 uses cuBLASLt even for the safe default. Rank zero
                // is restored because candidate probing mutates its plan map.
                GemmOp::Fp8F16 | GemmOp::Fp8Bf16 => cublaslt::prepare(
                    key,
                    TacticId { backend: TacticBackend::CublasLt, value: 0 },
                    config,
                ),
                GemmOp::Bf16 | GemmOp::W8A8 => Ok(Preparation { configure: None, build: None }),
            }
        },
        // The product that comes before the activation has a plan of its own.
        TacticBackend::GemmThenGeGlu => if key.epilogue == Epilogue::GeGlu && tactic.value == 0 {
            Ok(Preparation { configure: None, build: None })
        } else {
            Err(Error::Other(NO_PROVIDER))
        },
        TacticBackend::CutlassBf16GeGluSm89 => if key.op == GemmOp::Bf16 && key.epilogue
            == Epilogue::GeGlu && build.cutlass_bf16_sm89 {
            Ok(Preparation { configure: None, build: None })
        } else {
            Err(Error::Other(NO_PROVIDER))
        },
    }
}

pub open spec fn vendor() -> TacticId {
    TacticId { backend: TacticBackend::Vendor, value: 0 }
}

/// The tactics offered for a key: the safe route first, so that probing the
/// others cannot contaminate it, then those of each provider.
pub open spec fn offered(build: BuildFeatures, key: GemmTuningKey, max_algorithms: usize) -> Seq<
    TacticId,
> {
    seq![vendor()] + (if key.op == GemmOp::Bf16 || key.op == GemmOp::Fp8F16 {
        cublaslt::offered(key, max_algorithms)
    } else {
        Seq::empty()
    }) + (if key.epilogue == Epilogue::Plain {
        cutlass::offered(build, key)
    } else {
        Seq::empty()
    })
}

fn append_candidates(candidates: &mut Vec<TacticCandidate>, tactics: &Vec<TacticId>)
    ensures
        final(candidates)@ == old(candidates)@ + tactics@.map_values(
            |tactic: TacticId| TacticCandidate { tactic },
        ),
{
    let mut i: usize = 0;
    assert(candidates@ =~= old(candidates)@ + tactics@.take(0).map_values(
        |tactic: TacticId| TacticCandidate { tactic },
    ));
    while i < tactics.len()
        invariant
            i <= tactics.len(),
            candidates@ == old(candidates)@ + tactics@.take(i as int).map_values(
                |tactic: TacticId| TacticCandidate { tactic },
            ),
        decreases tactics.len() - i,
    {
        candidates.push(TacticCandidate { tactic: tactics[i] });
        i = i + 1;
        assert(candidates@ =~= old(candidates)@ + tactics@.take(i as int).map_values(
            |tactic: TacticId| TacticCandidate { tactic },
        ));
    }
    assert(tactics@.take(i as int) =~= tactics@);
}

/// The candidates for tuning a key.
pub fn candidates(build: &BuildFeatures, key: &GemmTuningKey, max_cublaslt_algorithms: usize) -> (
    candidates: Vec<TacticCandidate>)
    ensures
        candidates@ == offered(*build, *key, max_cublaslt_algorithms).map_values(
            |tactic: TacticId| TacticCandidate { tactic },
        ),
{
    let ghost wrap = |tactic: TacticId| TacticCandidate { tactic };
    let mut result: Vec<TacticCandidate> = Vec::new();
    result.push(TacticCandidate { tactic: TacticId { backend: TacticBackend::Vendor, value: 0 } });
    if key.op == GemmOp::Bf16 || key.op == GemmOp::Fp8F16 {
        append_candidates(&mut result, &cublaslt::candidates(key, max_cublaslt_algorithms));
    }
    if key.epilogue == Epilogue::Plain {
        append_candidates(&mut result, &cutlass::candidates(build, key));
    }
    assert(result@ =~= offered(*build, *key, max_cublaslt_algorithms).map_values(wrap));
    result
}

/// Whether the providers tune products of this kind with this epilogue.
pub open spec fn tunable(key: GemmTuningKey) -> bool {
    match key.op {
        GemmOp::Bf16 | GemmOp::W8A8 => key.epilogue == Epilogue::Plain,
        GemmOp::Fp8F16 => key.epilogue != Epilogue::GeGlu,
        GemmOp::Fp8Bf16 => key.epilogue == Epilogue::Plain,
    }
}

/// Every tactic offered for a key can be installed for it, provided that
/// custom numbers decode.
pub proof fn lemma_offered_tactics_are_prepared(
    build: BuildFeatures,
    key: GemmTuningKey,
    max_algorithms: usize,
    config: CublasLtCustomConfig,
    i: int,
)
    requires
        tunable(key),
        0 <= i < offered(build, key, max_algorithms).len(),
    ensures
        preparation(build, key, offered(build, key, max_algorithms)[i], Some(config)) is Ok,
{
    let all = offered(build, key, max_algorithms);
    let lt = if key.op == GemmOp::Bf16 || key.op == GemmOp::Fp8F16 {
        cublaslt::offered(key, max_algorithms)
    } else {
        Seq::empty()
    };
    if i == 0 {
        assert(all[0] == vendor());
    } else if i <= lt.len() {
        assert(all[i] == lt[i - 1]);
        cublaslt::lemma_offered(key, max_algorithms, config, i - 1);
    } else {
        assert(all[i] == cutlass::offered(build, key)[i - 1 - lt.len()]);
        cutlass::lemma_offered(build, key, i - 1 - lt.len());
    }
}

/// Every cuBLASLt tactic offered for a whole GeGLU operator can be installed,
/// provided that custom numbers decode.
pub proof fn lemma_geglu_tactics_are_prepared(
    build: BuildFeatures,
    key: GemmTuningKey,
    config: CublasLtCustomConfig,
    i: int,
)
    requires
        0 <= i < cublaslt::geglu_offered(key).len(),
    ensures
        preparation(build, key, cublaslt::geglu_offered(key)[i], Some(config)) is Ok,
{
    cublaslt::lemma_geglu_offered(key, config, i);
}

} // verus!
