//! Tactics of the cuBLASLt provider.

use super::super::{bf16, fp8};
use super::{Preparation, ProviderCall};
use crate::error::Error;
use crate::tuning::{
    CublasLtCustomConfig, Epilogue, GemmOp, GemmTuningKey, TacticBackend, TacticId,
};
use vstd::prelude::*;

verus! {

pub const REJECTED: &'static str = "cuBLASLt provider rejected this tactic";

/// Configure, and go on to build where the configuration is accepted.
pub open spec fn both(configure: Result<ProviderCall, Error>, build: ProviderCall) -> Result<
    Preparation,
    Error,
> {
    match configure {
        Ok(call) => Ok(Preparation { configure: Some(call), build: Some(build) }),
        Err(error) => Err(error),
    }
}

/// Configure only.
pub open spec fn configured(configure: Result<ProviderCall, Error>) -> Result<Preparation, Error> {
    match configure {
        Ok(call) => Ok(Preparation { configure: Some(call), build: None }),
        Err(error) => Err(error),
    }
}

/// What installs a tactic for a key: which operation, with which epilogue, can
/// be run by which family of cuBLASLt tactics.
pub open spec fn preparation(
    key: GemmTuningKey,
    tactic: TacticId,
    config: Option<CublasLtCustomConfig>,
) -> Result<Preparation, Error> {
    let (m, n, k) = (key.m, key.n, key.k);
    let plain = key.epilogue == Epilogue::Plain;
    let geglu = key.epilogue == Epilogue::GeGlu;
    match tactic.backend {
        TacticBackend::CublasLt => match key.op {
            GemmOp::Bf16 if plain => both(
                bf16::heuristic_call(m, n, k, tactic.value),
                bf16::prepare_call(m, n, k, false),
            ),
            GemmOp::Fp8F16 => match key.epilogue {
                Epilogue::Plain => both(
                    fp8::heuristic_call(m, n, k, tactic.value),
                    fp8::prepare_call(m, n, k),
                ),
                Epilogue::Bias | Epilogue::BiasGelu | Epilogue::BiasResidual => configured(
                    fp8::fused_heuristic_call(m, n, k, key.epilogue, tactic.value),
                ),
                Epilogue::GeGlu => Err(Error::Other(REJECTED)),
            },
            GemmOp::Fp8Bf16 if plain => both(
                Ok(fp8::bf16_heuristic_call(m, n, k, tactic.value)),
                fp8::bf16_prepare_call(m, n, k),
            ),
            _ => Err(Error::Other(REJECTED)),
        },
        TacticBackend::CublasLtCustom => match key.op {
            GemmOp::Bf16 if plain => both(
                bf16::custom_call(m, n, k, tactic.value, config),
                bf16::prepare_call(m, n, k, false),
            ),
            GemmOp::Fp8F16 if plain => both(
                fp8::custom_call(m, n, k, tactic.value, config),
                fp8::prepare_call(m, n, k),
            ),
            _ => Err(Error::Other(REJECTED)),
        },
        TacticBackend::CublasLtCustomBias => if key.op == GemmOp::Fp8F16 && (key.epilogue
            == Epilogue::Bias || key.epilogue == Epilogue::BiasResidual) {
            configured(fp8::bias_custom_call(m, n, k, key.epilogue, tactic.value, config))
        } else {
            Err(Error::Other(REJECTED))
        },
        TacticBackend::CublasLtCustomSplitSerial => match key.op {
            GemmOp::Bf16 if plain => both(
                bf16::split_custom_call(m, n, k, tactic.value, config),
                bf16::prepare_call(m, n, k, true),
            ),
            GemmOp::Fp8F16 if plain => both(
                fp8::split_custom_call(m, n, k, tactic.value, config),
                fp8::prepare_split_call(m, n, k),
            ),
            _ => Err(Error::Other(REJECTED)),
        },
        TacticBackend::CublasLtCustomSplitGeGluCutlass
        | TacticBackend::CublasLtCustomSplitGeGluCutlass2SmAuto
        | TacticBackend::CublasLtCustomSplitGeGluCutlass2SmStage3
        | TacticBackend::CublasLtCustomSplitGeGluCutlassM522Explicit2Sm => if key.op
            == GemmOp::Fp8F16 && geglu {
            both(
                fp8::split_custom_call(m, n, k, tactic.value, config),
                fp8::prepare_split_call(m, n, k),
            )
        } else {
            Err(Error::Other(REJECTED))
        },
        TacticBackend::CublasLtCustomSplitGeGluCutlassBf16 => if key.op == GemmOp::Bf16 && geglu {
            both(
                bf16::split_custom_call(m, n, k, tactic.value, config),
                bf16::prepare_call(m, n, k, true),
            )
        } else {
            Err(Error::Other(REJECTED))
        },
        _ => Err(Error::Other(REJECTED)),
    }
}

fn install(configure: ProviderCall, build: ProviderCall) -> (result: Result<Preparation, Error>)
    ensures
        result == both(Ok(configure), build),
{
    Ok(Preparation { configure: Some(configure), build: Some(build) })
}

/// The native calls that install `tactic` for `key`.
pub fn prepare(key: &GemmTuningKey, tactic: TacticId, config: Option<CublasLtCustomConfig>) -> (
    result: Result<Preparation, Error>)
    ensures
        result == preparation(*key, tactic, config),
{
    let m: usize = key.m;
    let n: usize = key.n;
    let k: usize = key.k;
    let plain = key.epilogue == Epilogue::Plain;
    let geglu = key.epilogue == Epilogue::GeGlu;
    match tactic.backend {
        TacticBackend::CublasLt => match key.op {
            GemmOp::Bf16 => {
                if !plain {
                    return Err(Error::Other(REJECTED));
                }
                let configure = bf16::set_cublaslt_gemm_heuristic(m, n, k, tactic.value)?;
                install(configure, bf16::prepare_cublaslt_gemm(m, n, k, false))
            },
            GemmOp::Fp8F16 => match key.epilogue {
                Epilogue::Plain => {
                    let configure = fp8::set_cublaslt_gemm_heuristic(m, n, k, tactic.value)?;
                    install(configure, fp8::prepare_cublaslt_fp8_gemm(m, n, k))
                },
                Epilogue::Bias | Epilogue::BiasGelu | Epilogue::BiasResidual => {
                    let configure = fp8::set_cublaslt_fused_gemm_heuristic(
                        m,
                        n,
                        k,
                        key.epilogue,
                        tactic.value,
                    )?;
                    Ok(Preparation { configure: Some(configure), build: None })
                },
                Epilogue::GeGlu => Err(Error::Other(REJECTED)),
            },
            GemmOp::Fp8Bf16 => {
                if !plain {
                    return Err(Error::Other(REJECTED));
                }
                install(
                    fp8::set_cublaslt_fp8_bf16_gemm_heuristic(m, n, k, tactic.value),
                    fp8::prepare_cublaslt_fp8_gemm_bf16(m, n, k),
                )
            },
            GemmOp::W8A8 => Err(Error::Other(REJECTED)),
        },
        TacticBackend::CublasLtCustom => match key.op {
            GemmOp::Bf16 if plain => {
                let configure = bf16::set_cublaslt_gemm_custom(m, n, k, tactic.value, config)?;
                install(configure, bf16::prepare_cublaslt_gemm(m, n, k, false))
            },
            GemmOp::Fp8F16 if plain => {
                let configure = fp8::set_cublaslt_gemm_custom(m, n, k, tactic.value, config)?;
                install(configure, fp8::prepare_cublaslt_fp8_gemm(m, n, k))
            },
            _ => Err(Error::Other(REJECTED)),
        },
        TacticBackend::CublasLtCustomBias => {
            if key.op == GemmOp::Fp8F16 && (key.epilogue == Epilogue::Bias || key.epilogue
                == Epilogue::BiasResidual) {
                let configure = fp8::set_cublaslt_gemm_bias_custom(
                    m,
                    n,
                    k,
                    key.epilogue,
                    tactic.value,
                    config,
                )?;
                Ok(Preparation { configure: Some(configure), build: None })
            } else {
                Err(Error::Other(REJECTED))
            }
        },
        TacticBackend::CublasLtCustomSplitSerial => match key.op {
            GemmOp::Bf16 if plain => {
                let configure = bf16::set_cublaslt_gemm_split_custom(m, n, k, tactic.value, config)?;
                install(configure, bf16::prepare_cublaslt_gemm(m, n, k, true))
            },
            GemmOp::Fp8F16 if plain => {
                let configure = fp8::set_cublaslt_gemm_split_custom(m, n, k, tactic.value, config)?;
                install(configure, fp8::prepare_cublaslt_fp8_gemm_split(m, n, k))
            },
            _ => Err(Error::Other(REJECTED)),
        },
        TacticBackend::CublasLtCustomSplitGeGluCutlass
        | TacticBackend::CublasLtCustomSplitGeGluCutlass2SmAuto
        | TacticBackend::CublasLtCustomSplitGeGluCutlass2SmStage3
        | TacticBackend::CublasLtCustomSplitGeGluCutlassM522Explicit2Sm => {
            if key.op == GemmOp::Fp8F16 && geglu {
                let configure = fp8::set_cublaslt_gemm_split_custom(m, n, k, tactic.value, config)?;
                install(configure, fp8::prepare_cublaslt_fp8_gemm_split(m, n, k))
            } else {
                Err(Error::Other(REJECTED))
            }
        },
        TacticBackend::CublasLtCustomSplitGeGluCutlassBf16 => {
            if key.op == GemmOp::Bf16 && geglu {
                let configure = bf16::set_cublaslt_gemm_split_custom(m, n, k, tactic.value, config)?;
                install(configure, bf16::prepare_cublaslt_gemm(m, n, k, true))
            } else {
                Err(Error::Other(REJECTED))
            }
        },
        _ => Err(Error::Other(REJECTED)),
    }
}

/// Provider-owned CUDA 13 / SM110 algorithm configurations. These are physical
/// cuBLASLt configurations, not model shapes.
pub open spec fn custom_ids() -> Seq<i32> {
    seq![
        18_377_904i32,
        18_902_425,
        18_923_959,
        18_924_573,
        18_924_956,
        18_926_998,
        18_927_004,
    ]
}

pub fn custom_config_ids() -> (ids: Vec<i32>)
    ensures
        ids@ == custom_ids(),
{
    let ids: Vec<i32> = vec![
        18_377_904, 18_902_425, 18_923_959, 18_924_573, 18_924_956, 18_926_998, 18_927_004,
    ];
    assert(ids@ =~= custom_ids());
    ids
}

/// One tactic of `backend` for each custom configuration.
pub open spec fn custom_tactics(backend: TacticBackend) -> Seq<TacticId> {
    custom_ids().map_values(|value: i32| TacticId { backend, value })
}

/// The backend that runs custom configurations of a key, if there is one.
pub open spec fn custom_backend(key: GemmTuningKey) -> Option<TacticBackend> {
    if key.epilogue == Epilogue::Plain && (key.op == GemmOp::Bf16 || key.op == GemmOp::Fp8F16) {
        Some(TacticBackend::CublasLtCustom)
    } else if key.op == GemmOp::Fp8F16 && (key.epilogue == Epilogue::Bias || key.epilogue
        == Epilogue::BiasResidual) {
        Some(TacticBackend::CublasLtCustomBias)
    } else {
        None
    }
}

/// The ranks that cuBLASLt's own heuristic may return, and on SM110 the custom
/// configurations, direct and split.
pub open spec fn offered(key: GemmTuningKey, max_algorithms: usize) -> Seq<TacticId> {
    let ranks = Seq::new(
        if max_algorithms < 64 {
            max_algorithms as nat
        } else {
            64
        },
        |value: int| TacticId { backend: TacticBackend::CublasLt, value: value as i32 },
    );
    if key.device.sm != 110 {
        ranks
    } else {
        ranks + (match custom_backend(key) {
            Some(backend) => custom_tactics(backend),
            None => Seq::empty(),
        }) + (if key.epilogue == Epilogue::Plain && (key.op == GemmOp::Bf16 || key.op
            == GemmOp::Fp8F16) {
            custom_tactics(TacticBackend::CublasLtCustomSplitSerial)
        } else {
            Seq::empty()
        })
    }
}

fn append_custom(candidates: &mut Vec<TacticId>, backend: TacticBackend)
    ensures
        final(candidates)@ == old(candidates)@ + custom_tactics(backend),
{
    let ids = custom_config_ids();
    let mut i: usize = 0;
    while i < ids.len()
        invariant
            i <= ids.len(),
            ids@ == custom_ids(),
            candidates@ == old(candidates)@ + custom_tactics(backend).take(i as int),
        decreases ids.len() - i,
    {
        candidates.push(TacticId { backend, value: ids[i] });
        i = i + 1;
        assert(candidates@ =~= old(candidates)@ + custom_tactics(backend).take(i as int));
    }
    assert(custom_tactics(backend).take(i as int) =~= custom_tactics(backend));
}

/// cuBLASLt discovers the algorithms that are supported by itself; the ranks
/// only bound the number of results asked for.
pub fn candidates(key: &GemmTuningKey, max_algorithms: usize) -> (candidates: Vec<TacticId>)
    ensures
        candidates@ == offered(*key, max_algorithms),
{
    let mut result: Vec<TacticId> = Vec::new();
    let count: usize = if max_algorithms < 64 {
        max_algorithms
    } else {
        64
    };
    let mut value: usize = 0;
    while value < count
        invariant
            value <= count <= 64,
            result@ == Seq::new(
                value as nat,
                |value: int| TacticId { backend: TacticBackend::CublasLt, value: value as i32 },
            ),
        decreases count - value,
    {
        result.push(TacticId { backend: TacticBackend::CublasLt, value: value as i32 });
        value = value + 1;
        assert(result@ =~= Seq::new(
            value as nat,
            |value: int| TacticId { backend: TacticBackend::CublasLt, value: value as i32 },
        ));
    }
    if key.device.sm != 110 {
        return result;
    }
    let plain = key.epilogue == Epilogue::Plain && (key.op == GemmOp::Bf16 || key.op
        == GemmOp::Fp8F16);
    if plain {
        append_custom(&mut result, TacticBackend::CublasLtCustom);
        append_custom(&mut result, TacticBackend::CublasLtCustomSplitSerial);
    } else if key.op == GemmOp::Fp8F16 && (key.epilogue == Epilogue::Bias || key.epilogue
        == Epilogue::BiasResidual) {
        append_custom(&mut result, TacticBackend::CublasLtCustomBias);
    }
    assert(result@ =~= offered(*key, max_algorithms));
    result
}

/// Every tactic offered for a key that is not a GeGLU can be installed.
pub proof fn lemma_offered(
    key: GemmTuningKey,
    max_algorithms: usize,
    config: CublasLtCustomConfig,
    i: int,
)
    requires
        key.op == GemmOp::Bf16 && key.epilogue == Epilogue::Plain || key.op == GemmOp::Fp8F16
            && key.epilogue != Epilogue::GeGlu,
        0 <= i < offered(key, max_algorithms).len(),
    ensures
        preparation(key, offered(key, max_algorithms)[i], Some(config)) is Ok,
        offered(key, max_algorithms)[i].backend == TacticBackend::CublasLt || offered(
            key,
            max_algorithms,
        )[i].backend == TacticBackend::CublasLtCustom || offered(key, max_algorithms)[i].backend
            == TacticBackend::CublasLtCustomBias || offered(key, max_algorithms)[i].backend
            == TacticBackend::CublasLtCustomSplitSerial,
{
    let tactic = offered(key, max_algorithms)[i];
    let count: int = if max_algorithms < 64 {
        max_algorithms as int
    } else {
        64
    };
    if i < count {
        assert(tactic == TacticId { backend: TacticBackend::CublasLt, value: i as i32 });
    } else if i < count + 7 {
        assert(tactic.backend == custom_backend(key).unwrap());
    } else {
        assert(tactic.backend == TacticBackend::CublasLtCustomSplitSerial);
    }
}

/// The backends that split one GeGLU product of an exact shape in two.
pub open spec fn geglu_backends(key: GemmTuningKey) -> Seq<TacticBackend> {
    if key.n != 32768 || key.k != 2048 {
        Seq::empty()
    } else if key.op == GemmOp::Fp8F16 && key.m == 778 {
        seq![
            TacticBackend::CublasLtCustomSplitGeGluCutlass,
            TacticBackend::CublasLtCustomSplitGeGluCutlass2SmAuto,
            TacticBackend::CublasLtCustomSplitGeGluCutlass2SmStage3,
        ]
    } else if key.op == GemmOp::Fp8F16 && key.m == 522 {
        seq![TacticBackend::CublasLtCustomSplitGeGluCutlassM522Explicit2Sm]
    } else if key.op == GemmOp::Bf16 && key.m == 789 {
        seq![TacticBackend::CublasLtCustomSplitGeGluCutlassBf16]
    } else {
        Seq::empty()
    }
}

/// Every custom configuration of each backend, in turn.
pub open spec fn all_custom(backends: Seq<TacticBackend>) -> Seq<TacticId>
    decreases backends.len(),
{
    if backends.len() == 0 {
        Seq::empty()
    } else {
        all_custom(backends.drop_last()) + custom_tactics(backends.last())
    }
}

pub open spec fn geglu_offered(key: GemmTuningKey) -> Seq<TacticId> {
    if key.device.sm != 110 || key.epilogue != Epilogue::GeGlu {
        Seq::empty()
    } else {
        all_custom(geglu_backends(key))
    }
}

proof fn lemma_all_custom(backends: Seq<TacticBackend>, i: int)
    requires
        0 <= i < all_custom(backends).len(),
    ensures
        backends.contains(all_custom(backends)[i].backend),
    decreases backends.len(),
{
    let head = all_custom(backends.drop_last());
    if i < head.len() {
        lemma_all_custom(backends.drop_last(), i);
        let j = choose|j: int|
            0 <= j < backends.drop_last().len() && backends.drop_last()[j] == head[i].backend;
        assert(backends[j] == head[i].backend);
    } else {
        assert(all_custom(backends)[i] == custom_tactics(backends.last())[i - head.len()]);
        assert(backends[backends.len() - 1] == backends.last());
    }
}

/// Every tactic offered for a whole GeGLU operator can be installed.
pub proof fn lemma_geglu_offered(key: GemmTuningKey, config: CublasLtCustomConfig, i: int)
    requires
        0 <= i < geglu_offered(key).len(),
    ensures
        preparation(key, geglu_offered(key)[i], Some(config)) is Ok,
        geglu_backends(key).contains(geglu_offered(key)[i].backend),
{
    lemma_all_custom(geglu_backends(key), i);
}

pub fn geglu_candidates(key: &GemmTuningKey) -> (candidates: Vec<TacticId>)
    ensures
        candidates@ == geglu_offered(*key),
{
    let mut result: Vec<TacticId> = Vec::new();
    if key.device.sm != 110 || key.epilogue != Epilogue::GeGlu {
        return result;
    }
    let mut backends: Vec<TacticBackend> = Vec::new();
    if key.n == 32768 && key.k == 2048 {
        if key.op == GemmOp::Fp8F16 && key.m == 778 {
            backends.push(TacticBackend::CublasLtCustomSplitGeGluCutlass);
            backends.push(TacticBackend::CublasLtCustomSplitGeGluCutlass2SmAuto);
            backends.push(TacticBackend::CublasLtCustomSplitGeGluCutlass2SmStage3);
        } else if key.op == GemmOp::Fp8F16 && key.m == 522 {
            backends.push(TacticBackend::CublasLtCustomSplitGeGluCutlassM522Explicit2Sm);
        } else if key.op == GemmOp::Bf16 && key.m == 789 {
            backends.push(TacticBackend::CublasLtCustomSplitGeGluCutlassBf16);
        }
    }
    assert(backends@ =~= geglu_backends(*key));
    let mut i: usize = 0;
    while i < backends.len()
        invariant
            i <= backends.len(),
            result@ == all_custom(backends@.take(i as int)),
        decreases backends.len() - i,
    {
        append_custom(&mut result, backends[i]);
        i = i + 1;
        assert(backends@.take(i as int).drop_last() =~= backends@.take(i - 1));
    }
    assert(backends@.take(i as int) =~= backends@);
    result
}

/// A GeGLU key is refused by every backend that computes a plain product,
/// before any native call.
pub proof fn lemma_plain_backends_reject_geglu(
    key: GemmTuningKey,
    tactic: TacticId,
    config: Option<CublasLtCustomConfig>,
)
    requires
        key.epilogue == Epilogue::GeGlu,
        tactic.backend == TacticBackend::CublasLt || tactic.backend == TacticBackend::CublasLtCustom
            || tactic.backend == TacticBackend::CublasLtCustomBias || tactic.backend
            == TacticBackend::CublasLtCustomSplitSerial,
    ensures
        preparation(key, tactic, config) == Err::<Preparation, Error>(Error::Other(REJECTED)),
{
}

} // verus!
