//! Which tactic runs a product, what installs it and how it is measured.

use super::quantized::is_key_of;
use crate::context::CudaContext;
use crate::error::Error;
use crate::kernels::gemm::autotune::{
    cold_l2_tuning_metadata, decode_bf16_output, CandidateRun, ColdL2Evictor, Outcome, Phase,
};
use crate::kernels::gemm::bf16::{autotune_request_bf16, prepare_bf16_geglu_tactic, AutotuneRequest};
use crate::kernels::gemm::fp8::{
    autotune_request_fp8, autotune_request_fp8_fused, bf16_output_tuning_key,
    configured_fp8_bf16_heuristic, dynamic_fp8_tactic, exact_fp8_tactic, fused_epilogue_id,
    gemm_fp8_bf16, gemm_fp8_bias_bf16, geglu_tuning_key, prepare_fp8_geglu_tactic,
    validate_bf16_dual_geglu_record, validate_fp8_dual_geglu_record,
    validate_fp8_interleaved_default, Fp8Autotune, Fp8Bf16Launch, Fp8WeightView,
};
use crate::kernels::gemm::geglu::{
    decomposed_geglu_tactic, geglu_start, GegluEvent, GegluRun, GegluStage,
};
use crate::kernels::gemm::plan::{
    cached, current_plan, default_bf16_tactic, default_fp8_tactic, prepared, selection, tunes,
    PlanSource, PreparedGemmPlan,
};
use crate::kernels::gemm::providers::cublaslt::{
    geglu_backends, geglu_candidates, lemma_geglu_offered,
};
use crate::kernels::gemm::providers::{candidates, prepare, Dims, Preparation, ProviderCall};
use crate::kernels::gemm::w8a8::{autotune_request_w8a8, W8A8Autotune};
use crate::text::EnvironmentValue;
use crate::tuning::{
    lookup_record, BuildFeatures, CublasLtCustomConfig, Epilogue, GemmLayout, GemmOp, GemmTuningKey,
    ResolvedTactic, ScaleMode, TacticBackend, TacticCandidate, TacticId, TacticMatch, TuningDType,
    TuningMode, TuningRecord, TuningSession,
};
use crate::types::{dtype_size, DType, Tensor};
use vstd::prelude::*;

verus! {

/// The extents that a call is made for.
pub open spec fn dims_of(call: ProviderCall) -> Dims {
    match call {
        ProviderCall::Bf16Heuristic { dims, .. } => dims,
        ProviderCall::Bf16Custom { dims, .. } => dims,
        ProviderCall::Bf16SplitCustom { dims, .. } => dims,
        ProviderCall::Bf16Prepare { dims, .. } => dims,
        ProviderCall::Fp8Heuristic { dims, .. } => dims,
        ProviderCall::Fp8FusedHeuristic { dims, .. } => dims,
        ProviderCall::Fp8Custom { dims, .. } => dims,
        ProviderCall::Fp8BiasCustom { dims, .. } => dims,
        ProviderCall::Fp8SplitCustom { dims, .. } => dims,
        ProviderCall::Fp8Prepare { dims } => dims,
        ProviderCall::Fp8PrepareSplit { dims } => dims,
        ProviderCall::Fp8Bf16Heuristic { dims, .. } => dims,
        ProviderCall::Fp8Bf16Prepare { dims } => dims,
        ProviderCall::Fp8BiasBf16Prepare { dims, .. } => dims,
    }
}

/// The rank that a call asks the library's heuristic for.
pub open spec fn rank_of(call: ProviderCall) -> Option<i32> {
    match call {
        ProviderCall::Bf16Heuristic { rank, .. } => Some(rank),
        ProviderCall::Fp8Heuristic { rank, .. } => Some(rank),
        ProviderCall::Fp8FusedHeuristic { rank, .. } => Some(rank),
        ProviderCall::Fp8Bf16Heuristic { rank, .. } => Some(rank),
        _ => None,
    }
}

/// The configuration that a call installs.
pub open spec fn config_of(call: ProviderCall) -> Option<CublasLtCustomConfig> {
    match call {
        ProviderCall::Bf16Custom { config, .. } => Some(config),
        ProviderCall::Bf16SplitCustom { config, .. } => Some(config),
        ProviderCall::Fp8Custom { config, .. } => Some(config),
        ProviderCall::Fp8BiasCustom { config, .. } => Some(config),
        ProviderCall::Fp8SplitCustom { config, .. } => Some(config),
        _ => None,
    }
}

/// The operation whose plans a call changes.
pub open spec fn op_of(call: ProviderCall) -> GemmOp {
    match call {
        ProviderCall::Bf16Heuristic { .. } | ProviderCall::Bf16Custom { .. }
        | ProviderCall::Bf16SplitCustom { .. } | ProviderCall::Bf16Prepare { .. } => GemmOp::Bf16,
        ProviderCall::Fp8Bf16Heuristic { .. } | ProviderCall::Fp8Bf16Prepare { .. }
        | ProviderCall::Fp8BiasBf16Prepare { .. } => GemmOp::Fp8Bf16,
        _ => GemmOp::Fp8F16,
    }
}

/// Whether a call works on the plans of the split product.
pub open spec fn is_split(call: ProviderCall) -> bool {
    match call {
        ProviderCall::Bf16SplitCustom { .. } | ProviderCall::Fp8SplitCustom { .. }
        | ProviderCall::Fp8PrepareSplit { .. } => true,
        ProviderCall::Bf16Prepare { split, .. } => split,
        _ => false,
    }
}

/// Whether a call only builds what was configured.
pub open spec fn is_build(call: ProviderCall) -> bool {
    match call {
        ProviderCall::Bf16Prepare { .. } | ProviderCall::Fp8Prepare { .. }
        | ProviderCall::Fp8PrepareSplit { .. } | ProviderCall::Fp8Bf16Prepare { .. }
        | ProviderCall::Fp8BiasBf16Prepare { .. } => true,
        _ => false,
    }
}

/// The epilogue of a call's plans, by the number of a fused one.
pub open spec fn epilogue_of(call: ProviderCall) -> int {
    match call {
        ProviderCall::Fp8FusedHeuristic { epilogue, .. } => epilogue as int,
        ProviderCall::Fp8BiasCustom { epilogue, .. } => epilogue as int,
        _ => 0,
    }
}

/// Whether a backend runs two products, the second one fused with the activation.
pub open spec fn is_split_backend(backend: TacticBackend) -> bool {
    ||| backend == TacticBackend::CublasLtCustomSplitSerial
    ||| backend == TacticBackend::CublasLtCustomSplitGeGluCutlass
    ||| backend == TacticBackend::CublasLtCustomSplitGeGluCutlass2SmAuto
    ||| backend == TacticBackend::CublasLtCustomSplitGeGluCutlass2SmStage3
    ||| backend == TacticBackend::CublasLtCustomSplitGeGluCutlassM522Explicit2Sm
    ||| backend == TacticBackend::CublasLtCustomSplitGeGluCutlassBf16
}

/// Whatever installs a tactic works on the key's own extents, operation and epilogue, asks for
/// the tactic's own rank or configuration, and builds after it configures.
pub proof fn lemma_preparation_is_of_its_key(
    build: BuildFeatures,
    key: GemmTuningKey,
    tactic: TacticId,
    config: Option<CublasLtCustomConfig>,
    result: Result<Preparation, Error>,
)
    requires
        call_ensures(prepare, (&build, &key, tactic, config), result),
        key.m <= i32::MAX,
        key.n <= i32::MAX,
        key.k <= i32::MAX,
    ensures
        result matches Ok(calls) ==> {
            &&& calls.configure matches Some(call) ==> {
                &&& dims_of(call).m == key.m && dims_of(call).n == key.n && dims_of(call).k == key.k
                &&& op_of(call) == key.op && !is_build(call)
                &&& is_split(call) <==> is_split_backend(tactic.backend)
                &&& tactic.backend == TacticBackend::CublasLt ==> rank_of(call) == Some(
                    tactic.value,
                )
                &&& tactic.backend == TacticBackend::Vendor ==> rank_of(call) == Some(0i32)
                &&& rank_of(call) is None ==> config_of(call) == config && config is Some
                &&& rank_of(call) is Some <==> tactic.backend == TacticBackend::CublasLt
                    || tactic.backend == TacticBackend::Vendor
                &&& epilogue_of(call) == (match key.epilogue {
                    Epilogue::Bias => 1int,
                    Epilogue::BiasGelu => 2,
                    Epilogue::BiasResidual => 3,
                    _ => 0,
                })
            }
            &&& calls.build matches Some(call) ==> {
                &&& dims_of(call).m == key.m && dims_of(call).n == key.n && dims_of(call).k == key.k
                &&& op_of(call) == key.op && is_build(call)
                &&& is_split(call) <==> is_split_backend(tactic.backend)
                &&& calls.configure is Some
            }
            &&& calls.configure is Some && calls.build is None ==> key.epilogue == Epilogue::Bias
                || key.epilogue == Epilogue::BiasGelu || key.epilogue == Epilogue::BiasResidual
            &&& key.op == GemmOp::W8A8 ==> calls.configure is None
        },
{
}

/// Which tactics can be installed: what a rank, a custom number, a tile or a whole operator
/// asks of the key and of the build.
pub proof fn lemma_preparation_accepts_what_runs(
    build: BuildFeatures,
    key: GemmTuningKey,
    tactic: TacticId,
    config: Option<CublasLtCustomConfig>,
    result: Result<Preparation, Error>,
)
    requires
        call_ensures(prepare, (&build, &key, tactic, config), result),
    ensures
        tactic.backend == TacticBackend::Vendor ==> (result is Ok <==> tactic.value == 0 && (key.op
            == GemmOp::Bf16 || key.op == GemmOp::W8A8 || (key.op == GemmOp::Fp8F16 && key.epilogue
            != Epilogue::GeGlu) || (key.op == GemmOp::Fp8Bf16 && key.epilogue == Epilogue::Plain))),
        tactic.backend == TacticBackend::CublasLt ==> (result is Ok <==> {
            ||| key.op == GemmOp::Bf16 && key.epilogue == Epilogue::Plain && 0 <= tactic.value < 64
            ||| key.op == GemmOp::Fp8F16 && key.epilogue != Epilogue::GeGlu && 0 <= tactic.value
                < 64
            ||| key.op == GemmOp::Fp8Bf16 && key.epilogue == Epilogue::Plain
        }),
        tactic.backend == TacticBackend::CublasLtCustom || tactic.backend
            == TacticBackend::CublasLtCustomSplitSerial ==> (result is Ok <==> (key.op
            == GemmOp::Bf16 || key.op == GemmOp::Fp8F16) && key.epilogue == Epilogue::Plain
            && config is Some),
        tactic.backend == TacticBackend::CublasLtCustomBias ==> (result is Ok <==> key.op
            == GemmOp::Fp8F16 && (key.epilogue == Epilogue::Bias || key.epilogue
            == Epilogue::BiasResidual) && config is Some),
        tactic.backend == TacticBackend::Cutlass ==> (result is Ok <==> key.epilogue
            == Epilogue::Plain && {
            ||| key.op == GemmOp::Fp8F16 && build.cutlass_gemm && 0 <= tactic.value <= 7 && key.n
                >= 1024 && key.n % 16 == 0 && key.k % 16 == 0
            ||| key.op == GemmOp::W8A8 && build.cutlass_int8_sm80 && tactic.value == 0 && key.n % 8
                == 0 && key.k % 16 == 0
        }),
        tactic.backend == TacticBackend::GemmThenGeGlu ==> (result is Ok <==> key.epilogue
            == Epilogue::GeGlu && tactic.value == 0),
        tactic.backend == TacticBackend::CutlassFp8DualGeGlu ==> (result is Ok <==> key.epilogue
            == Epilogue::GeGlu && key.op == GemmOp::Fp8F16 && (key.m == 522 || key.m == 533)
            && key.n == 32768 && key.k == 2048 && tactic.value == 0),
        tactic.backend == TacticBackend::CutlassBf16DualGeGluM522 ==> (result is Ok
            <==> key.epilogue == Epilogue::GeGlu && key.op == GemmOp::Bf16 && key.m == 522 && key.n
            == 32768 && key.k == 2048 && tactic.value == 0),
        tactic.backend == TacticBackend::CutlassBf16DualGeGluM533 ==> (result is Ok
            <==> key.epilogue == Epilogue::GeGlu && key.op == GemmOp::Bf16 && key.m == 533 && key.n
            == 32768 && key.k == 2048 && tactic.value == 0),
        tactic.backend == TacticBackend::CutlassBf16GeGluSm89 ==> (result is Ok <==> key.op
            == GemmOp::Bf16 && key.epilogue == Epilogue::GeGlu && build.cutlass_bf16_sm89),
        tactic.backend == TacticBackend::CublasLtCustomSplitGeGluCutlassBf16 ==> (result is Ok
            <==> key.op == GemmOp::Bf16 && key.epilogue == Epilogue::GeGlu && config is Some),
        is_split_backend(tactic.backend) && tactic.backend
            != TacticBackend::CublasLtCustomSplitSerial && tactic.backend
            != TacticBackend::CublasLtCustomSplitGeGluCutlassBf16 ==> (result is Ok <==> key.op
            == GemmOp::Fp8F16 && key.epilogue == Epilogue::GeGlu && config is Some),
{
}

/// The vendor route is offered first, and whatever is offered for a key that can be tuned can
/// be installed for it. On SM110 every custom configuration is offered directly and split.
pub proof fn lemma_candidates_can_be_installed(
    build: BuildFeatures,
    key: GemmTuningKey,
    max_algorithms: usize,
    list: Vec<TacticCandidate>,
    config: CublasLtCustomConfig,
    i: int,
    result: Result<Preparation, Error>,
)
    requires
        call_ensures(candidates, (&build, &key, max_algorithms), list),
        0 <= i < list@.len(),
        call_ensures(prepare, (&build, &key, list@[i].tactic, Some(config)), result),
        match key.op {
            GemmOp::Fp8F16 => key.epilogue != Epilogue::GeGlu,
            _ => key.epilogue == Epilogue::Plain,
        },
    ensures
        result is Ok,
        list@[0].tactic == (TacticId { backend: TacticBackend::Vendor, value: 0 }),
        i > 0 ==> list@[i].tactic.backend != TacticBackend::Vendor,
        list@.len() == 1 + (if key.op == GemmOp::Bf16 || key.op == GemmOp::Fp8F16 {
            (if max_algorithms < 64 {
                max_algorithms as int
            } else {
                64
            }) + (if key.device.sm != 110 {
                0int
            } else if key.epilogue == Epilogue::Plain {
                14
            } else if key.epilogue == Epilogue::BiasGelu {
                0
            } else {
                7
            })
        } else {
            0
        }) + (if key.epilogue != Epilogue::Plain {
            0int
        } else if key.op == GemmOp::Fp8F16 && build.cutlass_gemm && key.n >= 1024 && key.n % 16
            == 0 && key.k % 16 == 0 {
            8
        } else if key.op == GemmOp::W8A8 && build.cutlass_int8_sm80 && key.n % 8 == 0 && key.k % 16
            == 0 {
            1
        } else {
            0
        }),
{
    let all = crate::kernels::gemm::providers::offered(build, key, max_algorithms);
    assert(list@[i].tactic == all[i]);
    assert(list@[0].tactic == all[0]);
    crate::kernels::gemm::providers::lemma_offered_tactics_are_prepared(
        build,
        key,
        max_algorithms,
        config,
        i,
    );
    if i > 0 {
        let lt = if key.op == GemmOp::Bf16 || key.op == GemmOp::Fp8F16 {
            crate::kernels::gemm::providers::cublaslt::offered(key, max_algorithms)
        } else {
            Seq::empty()
        };
        if i <= lt.len() {
            assert(all[i] == lt[i - 1]);
            crate::kernels::gemm::providers::cublaslt::lemma_offered(
                key,
                max_algorithms,
                config,
                i - 1,
            );
        } else {
            let tiles = crate::kernels::gemm::providers::cutlass::offered(build, key);
            assert(all[i] == tiles[i - 1 - lt.len()]);
            crate::kernels::gemm::providers::cutlass::lemma_offered(build, key, i - 1 - lt.len());
        }
    }
}

/// A GeGLU tactic in two kernels installs its product under the plain key, with the product's
/// own tactic; any other tactic is installed under the key of the operator.
pub proof fn lemma_geglu_preparation_follows_its_tactic(
    build: BuildFeatures,
    key: GemmTuningKey,
    plain_key: GemmTuningKey,
    plan: Option<PreparedGemmPlan>,
    tactic: TacticId,
    config: Option<CublasLtCustomConfig>,
    bf16: Result<Preparation, Error>,
    fp8: Result<Preparation, Error>,
    product: Result<Preparation, Error>,
    operator: Result<Preparation, Error>,
)
    requires
        call_ensures(
            prepare_bf16_geglu_tactic,
            (&build, &key, &plain_key, plan, tactic, config),
            bf16,
        ),
        call_ensures(
            prepare_fp8_geglu_tactic,
            (&build, &key, &plain_key, plan, tactic, config),
            fp8,
        ),
        plan matches Some(plan) ==> call_ensures(
            prepare,
            (&build, &plain_key, plan.tactic, config),
            product,
        ),
        call_ensures(prepare, (&build, &key, tactic, config), operator),
    ensures
        tactic.backend == TacticBackend::GemmThenGeGlu && plan is Some ==> bf16 == product && fp8
            == product,
        tactic.backend == TacticBackend::GemmThenGeGlu && plan is None ==> bf16 is Err && fp8 is Err,
        tactic.backend != TacticBackend::GemmThenGeGlu ==> bf16 == operator && fp8 == operator,
{
}

/// Fused epilogues have numbers of their own.
pub proof fn lemma_fused_epilogues_are_numbered(epilogue: Epilogue, result: Result<i32, Error>)
    requires
        call_ensures(fused_epilogue_id, (epilogue,), result),
    ensures
        result == Ok::<i32, Error>(1) <==> epilogue == Epilogue::Bias,
        result == Ok::<i32, Error>(2) <==> epilogue == Epilogue::BiasGelu,
        result == Ok::<i32, Error>(3) <==> epilogue == Epilogue::BiasResidual,
        result is Err <==> epilogue == Epilogue::Plain || epilogue == Epilogue::GeGlu,
{
}

/// The keys of FP8 products differ in what they produce and in nothing else.
pub proof fn lemma_fp8_keys_name_their_result(
    ctx: CudaContext,
    m: usize,
    n: usize,
    k: usize,
    half: GemmTuningKey,
    brain: GemmTuningKey,
    gated: GemmTuningKey,
)
    requires
        call_ensures(crate::kernels::gemm::fp8::tuning_key, (&ctx, m, n, k), half),
        call_ensures(bf16_output_tuning_key, (&ctx, m, n, k), brain),
        call_ensures(geglu_tuning_key, (&ctx, m, n, k), gated),
    ensures
        is_key_of(half, ctx, m as int, n as int, k as int),
        half.op == GemmOp::Fp8F16 && half.output_dtype == TuningDType::F16,
        half.activation_dtype == TuningDType::F8E4M3 && half.weight_dtype == TuningDType::F8E4M3,
        half.layout == GemmLayout::RowMajor && half.scale_mode == ScaleMode::PerTensor,
        half.epilogue == Epilogue::Plain,
        brain == (GemmTuningKey { op: GemmOp::Fp8Bf16, output_dtype: TuningDType::Bf16, ..half }),
        gated == (GemmTuningKey {
            output_dtype: TuningDType::F8E4M3,
            epilogue: Epilogue::GeGlu,
            ..half
        }),
{
}

/// A session finds the first record of a key, and nothing where there is none. An exact
/// lookup passes over what was found through a bucket.
pub proof fn lemma_lookup_finds_the_first_record(
    session: TuningSession,
    key: GemmTuningKey,
    found: Option<ResolvedTactic>,
    exact: Option<TacticId>,
)
    requires
        call_ensures(TuningSession::lookup_gemm, (&session, &key), found),
        call_ensures(TuningSession::lookup_gemm_exact, (&session, &key), exact),
    ensures
        found matches Some(tactic) ==> exists|i: int|
            #![trigger session.records@[i]]
            0 <= i < session.records@.len() && session.records@[i].key == key
                && session.records@[i].resolved == tactic && forall|j: int|
                #![trigger session.records@[j]]
                0 <= j < i ==> session.records@[j].key != key,
        found is None ==> forall|i: int|
            #![trigger session.records@[i]]
            0 <= i < session.records@.len() ==> session.records@[i].key != key,
        exact == Some(found.unwrap().tactic) <==> found is Some && found.unwrap().source
            == TacticMatch::Exact,
        exact is None <==> found is None || found.unwrap().source == TacticMatch::Bucket,
{
    lemma_first_record(session.records@, key);
}

proof fn lemma_first_record(records: Seq<TuningRecord>, key: GemmTuningKey)
    ensures
        match lookup_record(records, key) {
            Some(tactic) => exists|i: int|
                #![trigger records[i]]
                0 <= i < records.len() && records[i].key == key && records[i].resolved == tactic
                    && forall|j: int|
                    #![trigger records[j]]
                    0 <= j < i ==> records[j].key != key,
            None => forall|i: int|
                #![trigger records[i]]
                0 <= i < records.len() ==> records[i].key != key,
        },
    decreases records.len(),
{
    if records.len() > 0 {
        if records[0].key == key {
            assert(records[0].resolved == lookup_record(records, key).unwrap());
        } else {
            let rest = records.skip(1);
            lemma_first_record(rest, key);
            if let Some(tactic) = lookup_record(rest, key) {
                let i = choose|i: int|
                    #![trigger rest[i]]
                    0 <= i < rest.len() && rest[i].key == key && rest[i].resolved == tactic
                        && forall|j: int|
                        #![trigger rest[j]]
                        0 <= j < i ==> rest[j].key != key;
                assert(records[i + 1] == rest[i]);
                assert forall|j: int|
                    #![trigger records[j]]
                    0 <= j < i + 1 implies records[j].key != key by {
                    if j > 0 {
                        assert(records[j] == rest[j - 1]);
                    }
                }
            } else {
                assert forall|i: int|
                    #![trigger records[i]]
                    0 <= i < records.len() implies records[i].key != key by {
                    if i > 0 {
                        assert(records[i] == rest[i - 1]);
                    }
                }
            }
        }
    }
}

/// The tactic that was tuned for an FP8 product is the one recorded under the product's key.
pub proof fn lemma_exact_fp8_tactic_is_recorded(
    ctx: CudaContext,
    m: usize,
    n: usize,
    k: usize,
    key: GemmTuningKey,
    exact: Option<TacticId>,
    recorded: Option<TacticId>,
)
    requires
        call_ensures(crate::kernels::gemm::fp8::tuning_key, (&ctx, m, n, k), key),
        call_ensures(exact_fp8_tactic, (&ctx, m, n, k), exact),
        call_ensures(TuningSession::lookup_gemm_exact, (&ctx.tuning, &key), recorded),
    ensures
        exact == recorded,
{
}

/// A plan is served from the cache only in the generation it was made in; a new plan is
/// served from then on and disturbs no other key.
pub proof fn lemma_cache_serves_its_generation(
    plans: Map<GemmTuningKey, PreparedGemmPlan>,
    key: GemmTuningKey,
    generation: u64,
    plan: PreparedGemmPlan,
    other: GemmTuningKey,
    error: Error,
)
    ensures
        current_plan(plans, key, generation) matches Some(served) ==> served.generation
            == generation && plans.contains_key(key) && plans[key] == served,
        plans.contains_key(key) && plans[key].generation == generation ==> current_plan(
            plans,
            key,
            generation,
        ) is Some,
        !plans.contains_key(key) ==> current_plan(plans, key, generation) is None,
        ({
            let after = cached(plans, key, Ok::<PreparedGemmPlan, Error>(plan));
            &&& after.contains_key(key) && after[key] == plan
            &&& other != key && plans.contains_key(other) ==> after.contains_key(other)
                && after[other] == plans[other]
            &&& other != key && after.contains_key(other) ==> plans.contains_key(other)
        }),
        cached(plans, key, Err::<PreparedGemmPlan, Error>(error)) == plans,
{
}

/// The tuner runs only in a session that tunes, for a request without an exact tactic, where
/// native resources may be prepared and no workspace is being rehearsed.
pub proof fn lemma_tuner_is_entered_only_to_tune(
    resolved: Option<ResolvedTactic>,
    mode: TuningMode,
    may_prepare: bool,
    rehearsing: bool,
)
    ensures
        tunes(resolved, mode, may_prepare, rehearsing) ==> mode == TuningMode::AutoTune
            && may_prepare && !rehearsing,
        resolved matches Some(found) && found.source == TacticMatch::Exact ==> !tunes(
            resolved,
            mode,
            may_prepare,
            rehearsing,
        ),
        mode == TuningMode::AutoTune && may_prepare && !rehearsing && (resolved is None
            || resolved.unwrap().source == TacticMatch::Bucket) ==> tunes(
            resolved,
            mode,
            may_prepare,
            rehearsing,
        ),
{
}

/// What was resolved is tried before the default, and a plan says where its tactic is from.
pub proof fn lemma_resolved_tactic_comes_first(
    default: TacticId,
    resolved: Option<ResolvedTactic>,
)
    ensures
        resolved matches Some(found) ==> selection(default, resolved).0 == found.tactic,
        resolved is None ==> selection(default, resolved) == (default, PlanSource::Default),
        selection(default, resolved).1 == PlanSource::Exact <==> (resolved matches Some(found)
            && found.source == TacticMatch::Exact),
        selection(default, resolved).1 == PlanSource::Bucket <==> (resolved matches Some(found)
            && found.source == TacticMatch::Bucket),
{
}

/// The default of an FP8 product is a tile where the build and the shape have one, larger
/// tiles for more rows, and else the vendor route. Either can be installed.
pub proof fn lemma_fp8_default_fits_its_rows(
    build: BuildFeatures,
    m: usize,
    more: usize,
    n: usize,
    k: usize,
    tactic: TacticId,
    other: TacticId,
)
    requires
        call_ensures(default_fp8_tactic, (&build, m, n, k), tactic),
        call_ensures(default_fp8_tactic, (&build, more, n, k), other),
        m <= more,
    ensures
        tactic.backend == TacticBackend::Cutlass <==> build.cutlass_gemm && n >= 1024 && n % 16 == 0
            && k % 16 == 0,
        tactic.backend == TacticBackend::Vendor || tactic.backend == TacticBackend::Cutlass,
        tactic.backend == TacticBackend::Vendor ==> tactic.value == 0,
        tactic.value <= other.value,
        tactic.backend == TacticBackend::Cutlass ==> {
            &&& 0 <= tactic.value <= 3
            &&& tactic.value == 0 <==> m <= 16
            &&& tactic.value <= 1 <==> m <= 64
            &&& tactic.value <= 2 <==> m <= 256
        },
{
}

/// Two fixed routes: the vendor product, and the product followed by the activation.
pub proof fn lemma_fixed_routes(bf16: TacticId, geglu: TacticId)
    requires
        call_ensures(default_bf16_tactic, (), bf16),
        call_ensures(decomposed_geglu_tactic, (), geglu),
    ensures
        bf16.backend == TacticBackend::Vendor && bf16.value == 0,
        geglu.backend == TacticBackend::GemmThenGeGlu && geglu.value == 0,
{
}

/// Shapes that the row-scaled product was measured for, with the tile that won.
pub open spec fn measured_tiles() -> Seq<(int, int, int, int)> {
    seq![
        (10, 1024, 2048, 1),
        (10, 2560, 1024, 11),
        (10, 4096, 1024, 13),
        (217, 22016, 2048, 12),
        (217, 2048, 11008, 6),
        (217, 2560, 2048, 8),
        (217, 2048, 2048, 10),
        (648, 1280, 1280, 8),
        (648, 1280, 3424, 9),
        (648, 3840, 1280, 9),
        (648, 6848, 1280, 6),
    ]
}

/// A measured shape gets the tile that won for it. Any other shape gets the tile of its number
/// of rows and of its longer side.
pub proof fn lemma_dynamic_tile_follows_measurements(m: usize, n: usize, k: usize, tactic: i32, i: int)
    requires
        call_ensures(dynamic_fp8_tactic, (m, n, k), tactic),
        0 <= i < measured_tiles().len(),
    ensures
        ({
            let (rows, cols, depth, tile) = measured_tiles()[i];
            m == rows && n == cols && k == depth ==> tactic == tile
        }),
        (forall|j: int|
            #![trigger measured_tiles()[j]]
            0 <= j < measured_tiles().len() ==> !(measured_tiles()[j].0 == m
                && measured_tiles()[j].1 == n && measured_tiles()[j].2 == k)) ==> {
            &&& m <= 64 <==> tactic == 1
            &&& m <= 64 || m > 256 ==> tactic != 0 && tactic != 3
            &&& 64 < m <= 256 ==> (tactic == 0 <==> n >= 10_000)
            &&& 64 < m <= 256 && n < 10_000 ==> (tactic == 6 <==> k >= 10_000)
            &&& 64 < m <= 256 && n < 10_000 && k < 10_000 ==> (tactic == 8 <==> n >= 2_500) && (
            tactic == 3 <==> n < 2_500)
            &&& m > 256 ==> tactic == 6 || tactic == 8
            &&& m > 256 ==> (tactic == 6 <==> n >= 5_000 || (n >= 2_500 && k < 3_000))
        },
{
    let t = measured_tiles();
    assert(t[0] == (10int, 1024int, 2048int, 1int));
    assert(t[1] == (10int, 2560int, 1024int, 11int));
    assert(t[2] == (10int, 4096int, 1024int, 13int));
    assert(t[3] == (217int, 22016int, 2048int, 12int));
    assert(t[4] == (217int, 2048int, 11008int, 6int));
    assert(t[5] == (217int, 2560int, 2048int, 8int));
    assert(t[6] == (217int, 2048int, 2048int, 10int));
    assert(t[7] == (648int, 1280int, 1280int, 8int));
    assert(t[8] == (648int, 1280int, 3424int, 9int));
    assert(t[9] == (648int, 3840int, 1280int, 9int));
    assert(t[10] == (648int, 6848int, 1280int, 6int));
}

/// The dual kernels run for the records they were validated for, and for no other.
pub proof fn lemma_dual_kernels_are_exact(
    op: GemmOp,
    m: usize,
    n: usize,
    k: usize,
    tactic: i32,
    expected_m: usize,
    experiment: &'static str,
    sm: u32,
    key: GemmTuningKey,
    interleaved: bool,
    fp8: Result<(), Error>,
    bf16: Result<(), Error>,
    alone: Result<(), Error>,
)
    requires
        call_ensures(validate_fp8_dual_geglu_record, (op, m, n, k, tactic), fp8),
        call_ensures(
            validate_bf16_dual_geglu_record,
            (op, m, n, k, tactic, expected_m, experiment),
            bf16,
        ),
        call_ensures(validate_fp8_interleaved_default, (sm, &key, interleaved), alone),
    ensures
        fp8 is Ok <==> op == GemmOp::Fp8F16 && (m == 522 || m == 533) && n == 32768 && k == 2048
            && tactic == 0,
        bf16 is Ok <==> op == GemmOp::Bf16 && m == expected_m && n == 32768 && k == 2048 && tactic
            == 0,
        alone is Ok <==> sm == 110 && interleaved && key.op == GemmOp::Fp8F16 && (key.m == 522
            || key.m == 533) && key.n == 32768 && key.k == 2048,
{
}

/// A tuning run of an FP8 product compares as many elements as the product has, in buffers
/// that hold them, and measures what is offered for the key.
pub proof fn lemma_fp8_tuning_measures_the_product(
    build: BuildFeatures,
    key: GemmTuningKey,
    dtype: DType,
    fused: Result<Fp8Autotune, Error>,
    plain: Result<Fp8Autotune, Error>,
    list: Vec<TacticCandidate>,
)
    requires
        call_ensures(autotune_request_fp8_fused, (&build, &key, dtype), fused),
        call_ensures(autotune_request_fp8, (&build, &key), plain),
        call_ensures(candidates, (&build, &key, 32), list),
        key.m * key.n * 2 <= usize::MAX,
    ensures
        fused matches Ok(request) ==> {
            &&& request.elements == key.m * key.n
            &&& request.output_bytes == request.elements * dtype_size(dtype)
            &&& request.decoded_bytes is Some <==> dtype == DType::F8E4M3
            &&& request.decoded_bytes matches Some(bytes) ==> bytes == request.elements * 2
            &&& request.reference_bytes is None
            &&& request.candidates@ == list@
        },
        plain matches Ok(request) ==> {
            &&& request.elements == key.m * key.n
            &&& request.output_bytes == request.elements * 2
            &&& request.decoded_bytes is None
            &&& request.reference_bytes matches Some(bytes) && bytes.activation == key.m * key.k * 2
                && bytes.weight == key.k * key.n * 2
            &&& request.candidates@ == list@
        },
{
}

/// The eviction buffer is four caches long, up to the next multiple of 256 bytes.
pub proof fn lemma_eviction_covers_the_cache(
    l2_cache_bytes: i32,
    result: Result<usize, Error>,
    evictor: Result<ColdL2Evictor, Error>,
)
    requires
        call_ensures(cold_l2_tuning_metadata, (l2_cache_bytes,), result),
        call_ensures(ColdL2Evictor::new, (l2_cache_bytes,), evictor),
        crate::types::host_is_64_bit(),
    ensures
        result matches Ok(bytes) ==> {
            &&& 4 * l2_cache_bytes <= bytes < 4 * l2_cache_bytes + 256
            &&& bytes % 256 == 0
            &&& evictor matches Ok(evictor) && evictor.bytes == bytes && evictor.seed == 0
        },
        result is Ok <==> l2_cache_bytes > 0,
        evictor is Ok <==> result is Ok,
{
}

/// A number read back keeps its sign, exponent and mantissa, unless it is no number: then it
/// stays no number.
pub proof fn lemma_readback_keeps_numbers(words: &[u16], values: Vec<u32>, i: int)
    requires
        call_ensures(decode_bf16_output, (words,), values),
        0 <= i < words@.len(),
    ensures
        values@.len() == words@.len(),
        words@[i] % 0x8000 <= 0x7f80 ==> values@[i] == words@[i] * 0x1_0000,
        words@[i] % 0x8000 > 0x7f80 ==> {
            &&& values@[i] % 0x8000_0000 > 0x7f80_0000
            &&& values@[i] / 0x8000_0000 == words@[i] / 0x8000
            &&& values@[i] / 0x40_0000 % 2 == 1
        },
{
    let bits = words@[i];
    assert(values@[i] == crate::kernels::gemm::autotune::widened_bf16(bits));
    assert(bits as int % 0x8000 > 0x7f80 && bits as int / 0x40 % 2 == 0 ==> bits + 0x40 < 0x1_0000
        && (bits + 0x40) / 0x8000 == bits as int / 0x8000 && (bits + 0x40) / 0x40 % 2 == 1);
}

/// Whether a candidate's measurement is over.
pub open spec fn is_over(phase: Phase) -> bool {
    phase is Timed || phase is Wrong || phase is Broken
}

/// A candidate is installed, then checked, and launched untimed and timed only after its
/// result was found close. A failure ends the measurement, and nothing reopens it.
pub proof fn lemma_only_close_candidates_are_timed(
    run: CandidateRun,
    outcome: Outcome,
    next: CandidateRun,
    warmup: u32,
    benchmark: u32,
    start: CandidateRun,
)
    requires
        call_ensures(CandidateRun::advance, (&run, outcome), next),
        call_ensures(CandidateRun::new, (warmup, benchmark), start),
    ensures
        start.phase is Prepare && start.warmup_iterations == warmup && start.benchmark_iterations
            == benchmark,
        next.warmup_iterations == run.warmup_iterations && next.benchmark_iterations
            == run.benchmark_iterations,
        is_over(run.phase) ==> next == run,
        !is_over(run.phase) && outcome is Failed ==> next.phase is Broken,
        next.phase is Check ==> run.phase is Prepare && outcome is Succeeded,
        next.phase is Wrong && !is_over(run.phase) ==> run.phase is Check && outcome
            == Outcome::Compared(false),
        run.phase is Check && outcome == Outcome::Compared(false) ==> next.phase is Wrong,
        next.phase is Warmup || next.phase is Settle ==> run.phase is Warmup || (run.phase is Check
            && outcome == Outcome::Compared(true)),
        next.phase is Measure || (next.phase is Timed && !is_over(run.phase)) ==> (
        run.phase is Settle || run.phase is Measure) && outcome is Succeeded,
        next.phase matches Phase::Warmup(done) ==> done < run.warmup_iterations && (
        run.phase is Check ==> done == 0) && (run.phase matches Phase::Warmup(before) ==> done
            == before + 1),
        next.phase matches Phase::Measure(done) ==> done < run.benchmark_iterations && (
        run.phase is Settle ==> done == 0) && (run.phase matches Phase::Measure(before) ==> done
            == before + 1),
        next.phase is Settle && run.phase is Check ==> run.warmup_iterations == 0,
        next.phase is Timed && run.phase is Settle ==> run.benchmark_iterations == 0,
        (run.phase matches Phase::Measure(before) && outcome is Succeeded && before + 1
            >= run.benchmark_iterations) ==> next.phase is Timed,
        (run.phase matches Phase::Warmup(before) && outcome is Succeeded && before + 1
            >= run.warmup_iterations) ==> next.phase is Settle,
{
}

/// A run of a GeGLU launches after its output exists, with a gate where its tactic writes one,
/// and after preparing where it may. A failed launch falls back only from a tactic other than
/// the default, with a plain weight at hand. It is done only when a launch succeeded.
pub proof fn lemma_geglu_run_launches_what_it_has(
    run: GegluRun,
    event: GegluEvent,
    next: GegluRun,
    plain: bool,
    known: bool,
    default: TacticId,
    may_prepare: bool,
    start: GegluRun,
)
    requires
        call_ensures(GegluRun::advance, (&run, event), next),
        call_ensures(geglu_start, (plain, known, default, may_prepare), start),
        run.wf(),
    ensures
        start.stage == GegluStage::ResolveDependency <==> plain && !known,
        start.stage == GegluStage::ResolveFused <==> !(plain && !known),
        start.plain_weight == plain && start.default == default && start.may_prepare == may_prepare
            && !start.plain_plan && !start.gate,
        next.plain_weight == run.plain_weight && next.default == run.default && next.may_prepare
            == run.may_prepare,
        run.stage == GegluStage::Done || run.stage == GegluStage::Failed ==> next == run,
        next.stage == GegluStage::Done && run.stage != GegluStage::Done ==> event is Succeeded && (
        run.stage == GegluStage::Launch || run.stage == GegluStage::FallbackLaunch),
        next.stage == GegluStage::Fallback <==> run.stage == GegluStage::Launch && event is Failed
            && run.tactic != run.default && run.plain_weight,
        event is Failed && run.stage != GegluStage::Launch && run.stage != GegluStage::Done
            ==> next.stage == GegluStage::Failed,
        next.stage == GegluStage::Launch ==> event is Succeeded && (run.stage == GegluStage::Prepare
            || (run.stage == GegluStage::AllocateOutput && !run.may_prepare)),
        next.stage == GegluStage::Prepare ==> run.stage == GegluStage::AllocateOutput
            && run.may_prepare,
        next.stage == GegluStage::AllocateOutput ==> (next.uses_gate ==> next.gate),
        next.stage == GegluStage::AllocateGate ==> next.uses_gate,
        run.stage == GegluStage::ResolveFused ==> (event matches GegluEvent::Resolved {
            tactic,
            uses_gate,
        } ==> next.tactic == tactic && next.uses_gate == uses_gate && next.stage
            != GegluStage::Failed),
        run.stage != GegluStage::ResolveFused ==> next.tactic == run.tactic && next.uses_gate
            == run.uses_gate,
        next.plain_plan && !run.plain_plan ==> event is Succeeded && (run.stage
            == GegluStage::ResolveDependency || run.stage == GegluStage::ResolvePlain || run.stage
            == GegluStage::FallbackResolvePlain),
        next.gate && !run.gate ==> event is Succeeded && (run.stage == GegluStage::AllocateGate
            || run.stage == GegluStage::FallbackAllocateGate),
        next.stage == GegluStage::FallbackLaunch ==> run.stage == GegluStage::FallbackPrepare
            && next.plain_plan && next.gate,
{
}

/// A plan that was prepared is one for its key and its generation. Its tactic is one that the
/// provider accepted: what was resolved, or else the default, under a source that says which.
pub proof fn lemma_prepared_plan_was_accepted<
    F: FnMut(&GemmTuningKey, TacticId) -> Result<(), Error>,
>(
    provider: F,
    key: GemmTuningKey,
    default: TacticId,
    resolved: Option<ResolvedTactic>,
    generation: u64,
    result: Result<PreparedGemmPlan, Error>,
)
    requires
        prepared(provider, key, default, resolved, generation, result),
    ensures
        result matches Ok(plan) ==> {
            &&& plan.key == key && plan.generation == generation
            &&& exists|accepted: Result<(), Error>| #[trigger]
                call_ensures(provider, (&key, plan.tactic), accepted) && accepted is Ok
            &&& plan.source == PlanSource::Default || (resolved matches Some(found) && plan.tactic
                == found.tactic && (plan.source == PlanSource::Exact <==> found.source
                == TacticMatch::Exact))
            &&& plan.source == PlanSource::Default ==> plan.tactic == default
        },
        result is Err ==> exists|refused: Result<(), Error>| #[trigger]
            call_ensures(provider, (&key, default), refused) && refused is Err,
{
    let (tactic, source) = selection(default, resolved);
    let first = choose|first: Result<(), Error>| #[trigger]
        call_ensures(provider, (&key, tactic), first) && match first {
            Ok(_) => result == Ok::<PreparedGemmPlan, Error>(
                PreparedGemmPlan { key, tactic, source, generation },
            ),
            Err(error) => if tactic == default {
                result == Err::<PreparedGemmPlan, Error>(error)
            } else {
                exists|second: Result<(), Error>| #[trigger]
                    call_ensures(provider, (&key, default), second) && match second {
                        Ok(_) => result == Ok::<PreparedGemmPlan, Error>(
                            PreparedGemmPlan {
                                key,
                                tactic: default,
                                source: PlanSource::Default,
                                generation,
                            },
                        ),
                        Err(error) => result == Err::<PreparedGemmPlan, Error>(error),
                    }
            },
        };
    assert(call_ensures(provider, (&key, tactic), first));
}

/// A whole GeGLU is split in two only on SM110 and only for the shapes that the kernels were
/// built for, once with every custom configuration. Each such tactic can be installed.
pub proof fn lemma_split_geglu_is_exact(
    build: BuildFeatures,
    key: GemmTuningKey,
    list: Vec<TacticId>,
    config: CublasLtCustomConfig,
    i: int,
    result: Result<Preparation, Error>,
)
    requires
        call_ensures(geglu_candidates, (&key,), list),
        0 <= i < list@.len(),
        call_ensures(prepare, (&build, &key, list@[i], Some(config)), result),
    ensures
        result is Ok,
        is_split_backend(list@[i].backend) && list@[i].backend
            != TacticBackend::CublasLtCustomSplitSerial,
        key.device.sm == 110 && key.epilogue == Epilogue::GeGlu && key.n == 32768 && key.k == 2048,
        key.op == GemmOp::Fp8F16 && (key.m == 522 || key.m == 778) || key.op == GemmOp::Bf16
            && key.m == 789,
        list@[i].backend == TacticBackend::CublasLtCustomSplitGeGluCutlassBf16 <==> key.m == 789,
        list@[i].backend == TacticBackend::CublasLtCustomSplitGeGluCutlassM522Explicit2Sm
            <==> key.m == 522,
{
    lemma_geglu_offered(key, config, i);
    let backends = geglu_backends(key);
    let j = choose|j: int| 0 <= j < backends.len() && backends[j] == list@[i].backend;
    assert(backends[j] == list@[i].backend);
}

/// Tuning runs of BF16 and of INT8 products compare every element of the product and measure
/// what is offered, the library's own ranks for BF16 only.
pub proof fn lemma_tuning_measures_the_product(
    build: BuildFeatures,
    key: GemmTuningKey,
    brain: Result<AutotuneRequest, Error>,
    quantized: Result<W8A8Autotune, Error>,
    ranked: Vec<TacticCandidate>,
    unranked: Vec<TacticCandidate>,
)
    requires
        call_ensures(autotune_request_bf16, (&build, &key), brain),
        call_ensures(autotune_request_w8a8, (&build, &key), quantized),
        call_ensures(candidates, (&build, &key, 64), ranked),
        call_ensures(candidates, (&build, &key, 0), unranked),
    ensures
        brain matches Ok(request) ==> {
            &&& request.elements == key.m * key.n && request.output_bytes == 2 * request.elements
            &&& request.reference.backend == TacticBackend::Vendor && request.reference.value == 0
            &&& request.candidates@ == ranked@
        },
        quantized matches Ok(request) ==> {
            &&& request.elements == key.m * key.n && request.output_bytes == 2 * request.elements
            &&& request.accumulator_bytes == 4 * request.elements
            &&& request.candidates@ == unranked@
        },
        brain is Ok <==> 2 * (key.m * key.n) <= usize::MAX,
        quantized is Ok <==> 4 * (key.m * key.n) <= usize::MAX,
{
    assert(0 <= key.m * key.n) by (nonlinear_arith);
}

/// What comes before a product with BF16 output: the configured rank or, where none is, the
/// one tuned for exactly this shape is installed for the product's own extents, and the product
/// is built after it.
pub open spec fn is_prepared_for(
    launch: Fp8Bf16Launch,
    configured: Option<i32>,
    tuned: Option<TacticId>,
    m: usize,
    n: usize,
    k: usize,
) -> bool {
    &&& launch.prepare matches Some(call) && {
        &&& op_of(call) == GemmOp::Fp8Bf16 && is_build(call)
        &&& dims_of(call).m == m && dims_of(call).n == n && dims_of(call).k == k
        &&& match call {
            ProviderCall::Fp8BiasBf16Prepare { bias, .. } => launch.bias == Some(bias),
            _ => launch.bias is None,
        }
    }
    &&& launch.configure matches Some(call) ==> {
        &&& op_of(call) == GemmOp::Fp8Bf16 && !is_build(call)
        &&& dims_of(call).m == m && dims_of(call).n == n && dims_of(call).k == k
        &&& rank_of(call) is Some
        &&& configured is Some ==> rank_of(call) == configured
        &&& configured is None ==> (tuned matches Some(tactic) && tactic.backend
            == TacticBackend::CublasLt && rank_of(call) == Some(tactic.value))
    }
    &&& configured is Some ==> launch.configure is Some
    &&& (tuned matches Some(tactic) && tactic.backend == TacticBackend::CublasLt)
        ==> launch.configure is Some
}

/// A product with BF16 output takes the configured rank before the tuned one.
pub proof fn lemma_configured_rank_comes_first(
    ctx: CudaContext,
    activation: Tensor,
    activation_scale: u32,
    weight: Fp8WeightView<'_>,
    native: bool,
    value: EnvironmentValue,
    result: Result<Fp8Bf16Launch, Error>,
    configured: Result<Option<i32>, Error>,
    key: GemmTuningKey,
    tuned: Option<TacticId>,
)
    requires
        call_ensures(
            gemm_fp8_bf16,
            (&ctx, &activation, activation_scale, weight, native, true, &value),
            result,
        ),
        activation.dims@.len() == 2 && activation.dims@[0] <= i32::MAX && activation.dims@[1]
            <= i32::MAX,
        weight.values_e4m3.dims@.len() == 2 && weight.values_e4m3.dims@[1] <= i32::MAX,
        call_ensures(
            configured_fp8_bf16_heuristic,
            (&value, activation.dims@[0], weight.values_e4m3.dims@[1], activation.dims@[1]),
            configured,
        ),
        call_ensures(
            bf16_output_tuning_key,
            (&ctx, activation.dims@[0], weight.values_e4m3.dims@[1], activation.dims@[1]),
            key,
        ),
        call_ensures(TuningSession::lookup_gemm_exact, (&ctx.tuning, &key), tuned),
    ensures
        configured is Err ==> result is Err,
        result matches Ok(launch) ==> is_prepared_for(
            launch,
            configured.unwrap(),
            tuned,
            activation.dims@[0],
            weight.values_e4m3.dims@[1],
            activation.dims@[1],
        ),
{
}

/// A product with BF16 output and a bias takes the configured rank before the tuned one.
pub proof fn lemma_configured_rank_comes_first_with_bias(
    ctx: CudaContext,
    activation: Tensor,
    activation_scale: u32,
    weight: Fp8WeightView<'_>,
    bias: Tensor,
    native: bool,
    value: EnvironmentValue,
    result: Result<Fp8Bf16Launch, Error>,
    configured: Result<Option<i32>, Error>,
    key: GemmTuningKey,
    tuned: Option<TacticId>,
)
    requires
        call_ensures(
            gemm_fp8_bias_bf16,
            (&ctx, &activation, activation_scale, weight, &bias, native, true, &value),
            result,
        ),
        activation.dims@.len() == 2 && activation.dims@[0] <= i32::MAX && activation.dims@[1]
            <= i32::MAX,
        weight.values_e4m3.dims@.len() == 2 && weight.values_e4m3.dims@[1] <= i32::MAX,
        call_ensures(
            configured_fp8_bf16_heuristic,
            (&value, activation.dims@[0], weight.values_e4m3.dims@[1], activation.dims@[1]),
            configured,
        ),
        call_ensures(
            bf16_output_tuning_key,
            (&ctx, activation.dims@[0], weight.values_e4m3.dims@[1], activation.dims@[1]),
            key,
        ),
        call_ensures(TuningSession::lookup_gemm_exact, (&ctx.tuning, &key), tuned),
    ensures
        configured is Err ==> result is Err,
        result matches Ok(launch) ==> is_prepared_for(
            launch,
            configured.unwrap(),
            tuned,
            activation.dims@[0],
            weight.values_e4m3.dims@[1],
            activation.dims@[1],
        ),
{
}

} // verus!
