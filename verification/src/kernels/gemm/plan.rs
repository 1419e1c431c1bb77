//! One-time tactic resolution and process-local prepared GEMM plans.

use super::providers::preparation;
use crate::error::Error;
use crate::tuning::{
    lookup_record, BuildFeatures, CublasLtCustomConfig, Epilogue, GemmOp, GemmTuningKey,
    ResolvedTactic, TacticBackend, TacticId, TacticMatch, TuningMode, TuningSession,
};
use vstd::prelude::*;

verus! {

/// Where the tactic of a plan came from.
#[derive(Clone, Copy, Debug, PartialEq, Eq, Structural)]
pub enum PlanSource {
    Exact,
    Bucket,
    Default,
}

/// A tactic resolved and validated for one physical GEMM key.
#[derive(Clone, Copy, Debug, PartialEq, Eq, Structural)]
pub struct PreparedGemmPlan {
    pub key: GemmTuningKey,
    pub tactic: TacticId,
    pub source: PlanSource,
    pub generation: u64,
}

/// Prepared plans, at most one for each key.
#[derive(Debug)]
pub struct GemmPlanCache {
    plans: Vec<PreparedGemmPlan>,
}

/// What a tuning run came back with, and the session's answer after it.
#[derive(Clone, Copy, Debug)]
pub struct TuneReport {
    /// The tactic the run selected, or why it failed.
    pub outcome: Result<ResolvedTactic, Error>,
    /// What the session resolves for the key once the run is over.
    pub lookup: Option<ResolvedTactic>,
    /// The session's generation once the run is over.
    pub generation: u64,
}

pub const CACHE_MISS: &'static str =
    "CUDA GEMM plan cache miss while native resource preparation is disabled (for example during CUDA Graph capture); resolve and prepare all GEMM plans before capture";

/// The provider-independent route that every operation has.
pub open spec fn vendor_tactic() -> TacticId {
    TacticId { backend: TacticBackend::Vendor, value: 0 }
}

/// The tactic to try first, and where it comes from.
pub open spec fn selection(default: TacticId, resolved: Option<ResolvedTactic>) -> (
    TacticId,
    PlanSource,
) {
    match resolved {
        Some(found) => (
            found.tactic,
            match found.source {
                TacticMatch::Exact => PlanSource::Exact,
                TacticMatch::Bucket => PlanSource::Bucket,
            },
        ),
        None => (default, PlanSource::Default),
    }
}

/// The cached plan of `key`, when it was made in `generation`.
pub open spec fn current_plan(
    plans: Map<GemmTuningKey, PreparedGemmPlan>,
    key: GemmTuningKey,
    generation: u64,
) -> Option<PreparedGemmPlan> {
    if plans.contains_key(key) && plans[key].generation == generation {
        Some(plans[key])
    } else {
        None
    }
}

/// What preparing leads to: the selected tactic where the provider accepts
/// it, else the default where the provider accepts that, else the error.
pub open spec fn prepared<F: FnMut(&GemmTuningKey, TacticId) -> Result<(), Error>>(
    prepare: F,
    key: GemmTuningKey,
    default: TacticId,
    resolved: Option<ResolvedTactic>,
    generation: u64,
    result: Result<PreparedGemmPlan, Error>,
) -> bool {
    let (tactic, source) = selection(default, resolved);
    exists|first: Result<(), Error>| #[trigger]
        call_ensures(prepare, (&key, tactic), first) && match first {
            Ok(_) => result == Ok::<PreparedGemmPlan, Error>(
                PreparedGemmPlan { key, tactic, source, generation },
            ),
            Err(error) => if tactic == default {
                result == Err::<PreparedGemmPlan, Error>(error)
            } else {
                exists|second: Result<(), Error>| #[trigger]
                    call_ensures(prepare, (&key, default), second) && match second {
                        Ok(_) => result == Ok::<PreparedGemmPlan, Error>(
                            PreparedGemmPlan {
                                key,
                                tactic: default,
                                source: PlanSource::Default,
                                generation,
                            },
                        ),
                        Err(error) => result == Err::<PreparedGemmPlan, Error>(error),
                    }
            },
        }
}

/// The cache after a resolution: the new plan where there is one.
pub open spec fn cached(
    plans: Map<GemmTuningKey, PreparedGemmPlan>,
    key: GemmTuningKey,
    result: Result<PreparedGemmPlan, Error>,
) -> Map<GemmTuningKey, PreparedGemmPlan> {
    match result {
        Ok(plan) => plans.insert(key, plan),
        Err(_) => plans,
    }
}

/// Whether a request may enter the tuner: it lacks an exact tactic, the
/// session tunes, and native resources may be prepared outside a rehearsal.
pub open spec fn tunes(
    resolved: Option<ResolvedTactic>,
    mode: TuningMode,
    may_prepare_native_resources: bool,
    preparing_workspace: bool,
) -> bool {
    &&& !(resolved matches Some(found) && found.source == TacticMatch::Exact)
    &&& mode == TuningMode::AutoTune
    &&& may_prepare_native_resources
    &&& !preparing_workspace
}

impl GemmPlanCache {
    /// The plan of each key that has one.
    pub closed spec fn view(&self) -> Map<GemmTuningKey, PreparedGemmPlan> {
        Map::new(
            |key: GemmTuningKey| exists|i: int| self.holds(i, key),
            |key: GemmTuningKey| self.plans@[choose|i: int| self.holds(i, key)],
        )
    }

    spec fn holds(&self, i: int, key: GemmTuningKey) -> bool {
        0 <= i < self.plans@.len() && self.plans@[i].key == key
    }

    /// No key has two plans.
    pub closed spec fn wf(&self) -> bool {
        forall|i: int, j: int|
            0 <= i < j < self.plans@.len() ==> self.plans@[i].key != self.plans@[j].key
    }

    proof fn lemma_holds(&self, i: int)
        requires
            self.wf(),
            0 <= i < self.plans@.len(),
        ensures
            self@.contains_key(self.plans@[i].key),
            self@[self.plans@[i].key] == self.plans@[i],
    {
        let key = self.plans@[i].key;
        assert(self.holds(i, key));
        let j = choose|j: int| self.holds(j, key);
        assert(self.holds(j, key));
        assert(i == j);
    }

    /// A cache without plans.
    pub fn new() -> (cache: Self)
        ensures
            cache.wf(),
            cache@ == Map::<GemmTuningKey, PreparedGemmPlan>::empty(),
    {
        let cache = GemmPlanCache { plans: Vec::new() };
        assert(cache@ =~= Map::<GemmTuningKey, PreparedGemmPlan>::empty());
        cache
    }

    fn index_of(&self, key: &GemmTuningKey) -> (found: Option<usize>)
        requires
            self.wf(),
        ensures
            match found {
                Some(i) => i < self.plans@.len() && self.plans@[i as int].key == *key,
                None => !self@.contains_key(*key),
            },
    {
        let mut i: usize = 0;
        while i < self.plans.len()
            invariant
                i <= self.plans@.len(),
                forall|j: int| 0 <= j < i ==> self.plans@[j].key != *key,
            decreases self.plans.len() - i,
        {
            if self.plans[i].key == *key {
                return Some(i);
            }
            i = i + 1;
        }
        assert forall|j: int| !self.holds(j, *key) by {}
        None
    }

    /// The plan cached for `key`, whatever its generation.
    pub fn get(&self, key: &GemmTuningKey) -> (plan: Option<PreparedGemmPlan>)
        requires
            self.wf(),
        ensures
            plan == (if self@.contains_key(*key) {
                Some(self@[*key])
            } else {
                None
            }),
    {
        match self.index_of(key) {
            Some(i) => {
                proof {
                    self.lemma_holds(i as int);
                }
                Some(self.plans[i])
            },
            None => None,
        }
    }

    fn current(&self, key: &GemmTuningKey, generation: u64) -> (plan: Option<PreparedGemmPlan>)
        requires
            self.wf(),
        ensures
            plan == current_plan(self@, *key, generation),
    {
        match self.get(key) {
            Some(plan) => if plan.generation == generation {
                Some(plan)
            } else {
                None
            },
            None => None,
        }
    }

    fn insert(&mut self, plan: PreparedGemmPlan)
        requires
            old(self).wf(),
        ensures
            final(self).wf(),
            final(self)@ == old(self)@.insert(plan.key, plan),
    {
        let ghost before = *self;
        match self.index_of(&plan.key) {
            Some(i) => {
                self.plans.set(i, plan);
                proof {
                    assert(self.plans@ =~= before.plans@.update(i as int, plan));
                    assert forall|a: int, b: int| 0 <= a < b < self.plans@.len() implies
                        self.plans@[a].key != self.plans@[b].key by {
                        assert(self.plans@[a].key == before.plans@[a].key);
                        assert(self.plans@[b].key == before.plans@[b].key);
                    }
                    assert forall|key: GemmTuningKey| #[trigger] self@.contains_key(key)
                        <==> before@.insert(plan.key, plan).contains_key(key) by {
                        assert forall|j: int| self.holds(j, key) == before.holds(j, key) by {}
                        if key == plan.key {
                            assert(self.holds(i as int, key));
                        }
                        if before@.contains_key(key) {
                            let j = choose|j: int| before.holds(j, key);
                            assert(self.holds(j, key));
                        }
                        if self@.contains_key(key) {
                            let j = choose|j: int| self.holds(j, key);
                            assert(before.holds(j, key));
                        }
                    }
                    assert forall|key: GemmTuningKey| #[trigger] self@.contains_key(key) implies
                        self@[key] == before@.insert(plan.key, plan)[key] by {
                        let j = choose|j: int| self.holds(j, key);
                        self.lemma_holds(j);
                        before.lemma_holds(j);
                        if key == plan.key {
                            before.lemma_holds(i as int);
                            assert(before.plans@[i as int].key == before.plans@[j].key);
                            assert(i == j);
                        }
                    }
                }
            },
            None => {
                self.plans.push(plan);
                proof {
                    let last = before.plans@.len() as int;
                    assert forall|a: int| 0 <= a < last implies #[trigger] before.plans@[a].key
                        != plan.key by {
                        if before.plans@[a].key == plan.key {
                            before.lemma_holds(a);
                        }
                    }
                    assert forall|a: int, b: int| 0 <= a < b < self.plans@.len() implies
                        self.plans@[a].key != self.plans@[b].key by {
                        assert(self.plans@[a] == before.plans@[a]);
                        if b < last {
                            assert(self.plans@[b] == before.plans@[b]);
                        }
                    }
                    assert forall|key: GemmTuningKey| #[trigger] self@.contains_key(key)
                        <==> before@.insert(plan.key, plan).contains_key(key) by {
                        if key == plan.key {
                            assert(self.holds(last, key));
                        }
                        if before@.contains_key(key) {
                            let j = choose|j: int| before.holds(j, key);
                            assert(self.holds(j, key));
                        }
                        if self@.contains_key(key) && key != plan.key {
                            let j = choose|j: int| self.holds(j, key);
                            assert(before.holds(j, key));
                        }
                    }
                    assert forall|key: GemmTuningKey| #[trigger] self@.contains_key(key) implies
                        self@[key] == before@.insert(plan.key, plan)[key] by {
                        let j = choose|j: int| self.holds(j, key);
                        self.lemma_holds(j);
                        if j < last {
                            before.lemma_holds(j);
                        }
                    }
                }
            },
        }
        assert(self@ =~= before@.insert(plan.key, plan));
    }

    /// Resolve `key` from the cache, or from the session's tactic.
    pub fn resolve<F: FnMut(&GemmTuningKey, TacticId) -> Result<(), Error>>(
        &mut self,
        session: &TuningSession,
        key: &GemmTuningKey,
        default: TacticId,
        may_prepare_native_resources: bool,
        prepare: F,
    ) -> (result: Result<PreparedGemmPlan, Error>)
        requires
            old(self).wf(),
            current_plan(old(self)@, *key, session.generation) is None && may_prepare_native_resources
                ==> forall|tactic: TacticId| call_requires(prepare, (key, tactic)),
        ensures
            final(self).wf(),
            match current_plan(old(self)@, *key, session.generation) {
                Some(plan) => result == Ok::<PreparedGemmPlan, Error>(plan) && final(self)@ == old(
                    self,
                )@,
                None => {
                    &&& final(self)@ == cached(old(self)@, *key, result)
                    &&& !may_prepare_native_resources ==> result == Err::<PreparedGemmPlan, Error>(
                        Error::Other(CACHE_MISS),
                    )
                    &&& may_prepare_native_resources ==> prepared(
                        prepare,
                        *key,
                        default,
                        lookup_record(session.records@, *key),
                        session.generation,
                        result,
                    )
                },
            },
    {
        if let Some(plan) = self.current(key, session.generation()) {
            return Ok(plan);
        }
        self.prepare_and_cache_with(
            key,
            default,
            session.lookup_gemm(key),
            session.generation(),
            may_prepare_native_resources,
            prepare,
        )
    }

    /// Resolve an exact plan from the request's real operands. The tuning
    /// callback is never entered in inference mode or during graph capture:
    /// it has to be callable only where the session tunes. Nor is a provider
    /// prepared during a capture.
    pub fn resolve_or_tune<
        T: FnOnce(&GemmTuningKey) -> TuneReport,
        F: FnMut(&GemmTuningKey, TacticId) -> Result<(), Error>,
    >(
        &mut self,
        session: &TuningSession,
        key: &GemmTuningKey,
        default: TacticId,
        may_prepare_native_resources: bool,
        preparing_workspace: bool,
        tune: T,
        prepare: F,
    ) -> (result: Result<PreparedGemmPlan, Error>)
        requires
            old(self).wf(),
            current_plan(old(self)@, *key, session.generation) is None && tunes(
                lookup_record(session.records@, *key),
                session.mode,
                may_prepare_native_resources,
                preparing_workspace,
            ) ==> call_requires(tune, (key,)),
            current_plan(old(self)@, *key, session.generation) is None && may_prepare_native_resources
                ==> forall|tactic: TacticId| call_requires(prepare, (key, tactic)),
        ensures
            final(self).wf(),
            match current_plan(old(self)@, *key, session.generation) {
                Some(plan) => result == Ok::<PreparedGemmPlan, Error>(plan) && final(self)@ == old(
                    self,
                )@,
                None => {
                    let found = lookup_record(session.records@, *key);
                    &&& final(self)@ == cached(old(self)@, *key, result)
                    &&& !may_prepare_native_resources ==> result == Err::<PreparedGemmPlan, Error>(
                        Error::Other(CACHE_MISS),
                    )
                    &&& may_prepare_native_resources ==> if tunes(
                        found,
                        session.mode,
                        may_prepare_native_resources,
                        preparing_workspace,
                    ) {
                        exists|report: TuneReport| #[trigger]
                            call_ensures(tune, (key,), report) && prepared(
                                prepare,
                                *key,
                                default,
                                match report.outcome {
                                    Ok(tuned) => Some(tuned),
                                    Err(_) => report.lookup,
                                },
                                report.generation,
                                result,
                            )
                    } else {
                        prepared(prepare, *key, default, found, session.generation, result)
                    }
                },
            },
    {
        if let Some(plan) = self.current(key, session.generation()) {
            return Ok(plan);
        }
        let mut resolved = session.lookup_gemm(key);
        let mut generation: u64 = session.generation();
        let exact = match resolved {
            Some(found) => found.source == TacticMatch::Exact,
            None => false,
        };
        if !exact && session.mode() == TuningMode::AutoTune && may_prepare_native_resources
            && !preparing_workspace {
            let report = tune(key);
            resolved = match report.outcome {
                Ok(tuned) => Some(tuned),
                Err(_) => report.lookup,
            };
            generation = report.generation;
        }
        self.prepare_and_cache_with(
            key,
            default,
            resolved,
            generation,
            may_prepare_native_resources,
            prepare,
        )
    }

    /// Prepare the resolved tactic, or the default where the provider refuses
    /// it, and cache the plan. Without leave to prepare native resources no
    /// provider is called.
    pub fn prepare_and_cache_with<F: FnMut(&GemmTuningKey, TacticId) -> Result<(), Error>>(
        &mut self,
        key: &GemmTuningKey,
        default: TacticId,
        resolved: Option<ResolvedTactic>,
        generation: u64,
        may_prepare_native_resources: bool,
        mut prepare: F,
    ) -> (result: Result<PreparedGemmPlan, Error>)
        requires
            old(self).wf(),
            may_prepare_native_resources ==> forall|tactic: TacticId|
                call_requires(prepare, (key, tactic)),
        ensures
            final(self).wf(),
            final(self)@ == cached(old(self)@, *key, result),
            !may_prepare_native_resources ==> result == Err::<PreparedGemmPlan, Error>(
                Error::Other(CACHE_MISS),
            ),
            may_prepare_native_resources ==> prepared(
                prepare,
                *key,
                default,
                resolved,
                generation,
                result,
            ),
    {
        if let Err(error) = ensure_native_prepare_allowed(may_prepare_native_resources) {
            return Err(error);
        }
        let (selected, source) = match resolved {
            Some(found) => (
                found.tactic,
                match found.source {
                    TacticMatch::Exact => PlanSource::Exact,
                    TacticMatch::Bucket => PlanSource::Bucket,
                },
            ),
            None => (default, PlanSource::Default),
        };
        let first = prepare(key, selected);
        let (tactic, source) = match first {
            Ok(_) => (selected, source),
            Err(error) => {
                if selected == default {
                    return Err(error);
                }
                let second = prepare(key, default);
                if let Err(error) = second {
                    return Err(error);
                }
                (default, PlanSource::Default)
            },
        };
        let plan = PreparedGemmPlan { key: *key, tactic, source, generation };
        self.insert(plan);
        Ok(plan)
    }

    /// Replace a rejected prepared tactic with the provider-independent safe
    /// route so subsequent calls do not retry the failing launch.
    pub fn fallback<F: FnMut(&GemmTuningKey, TacticId) -> Result<(), Error>>(
        &mut self,
        session: &TuningSession,
        key: &GemmTuningKey,
        may_prepare_native_resources: bool,
        prepare: F,
    ) -> (result: Result<PreparedGemmPlan, Error>)
        requires
            old(self).wf(),
            may_prepare_native_resources ==> forall|tactic: TacticId|
                call_requires(prepare, (key, tactic)),
        ensures
            final(self).wf(),
            final(self)@ == cached(old(self)@, *key, result),
            !may_prepare_native_resources ==> result == Err::<PreparedGemmPlan, Error>(
                Error::Other(CACHE_MISS),
            ),
            may_prepare_native_resources ==> prepared(
                prepare,
                *key,
                vendor_tactic(),
                None,
                session.generation,
                result,
            ),
    {
        self.fallback_to(
            session,
            key,
            TacticId { backend: TacticBackend::Vendor, value: 0 },
            may_prepare_native_resources,
            prepare,
        )
    }

    /// As `fallback`, to the given tactic.
    pub fn fallback_to<F: FnMut(&GemmTuningKey, TacticId) -> Result<(), Error>>(
        &mut self,
        session: &TuningSession,
        key: &GemmTuningKey,
        tactic: TacticId,
        may_prepare_native_resources: bool,
        prepare: F,
    ) -> (result: Result<PreparedGemmPlan, Error>)
        requires
            old(self).wf(),
            may_prepare_native_resources ==> forall|tactic: TacticId|
                call_requires(prepare, (key, tactic)),
        ensures
            final(self).wf(),
            final(self)@ == cached(old(self)@, *key, result),
            !may_prepare_native_resources ==> result == Err::<PreparedGemmPlan, Error>(
                Error::Other(CACHE_MISS),
            ),
            may_prepare_native_resources ==> prepared(
                prepare,
                *key,
                tactic,
                None,
                session.generation,
                result,
            ),
    {
        self.prepare_and_cache_with(
            key,
            tactic,
            None,
            session.generation(),
            may_prepare_native_resources,
            prepare,
        )
    }

    /// Forget every plan.
    pub fn clear(&mut self)
        ensures
            final(self).wf(),
            final(self)@ == Map::<GemmTuningKey, PreparedGemmPlan>::empty(),
    {
        self.plans = Vec::new();
        assert(self@ =~= Map::<GemmTuningKey, PreparedGemmPlan>::empty());
    }
}

/// A plan that was just cached is found again in the same generation, and no
/// other key is affected.
pub proof fn lemma_cached_plan_is_found(
    plans: Map<GemmTuningKey, PreparedGemmPlan>,
    key: GemmTuningKey,
    plan: PreparedGemmPlan,
    other: GemmTuningKey,
    generation: u64,
)
    ensures
        current_plan(
            cached(plans, key, Ok::<PreparedGemmPlan, Error>(plan)),
            key,
            plan.generation,
        ) == Some(plan),
        other != key ==> current_plan(
            cached(plans, key, Ok::<PreparedGemmPlan, Error>(plan)),
            other,
            generation,
        ) == current_plan(plans, other, generation),
{
}

fn ensure_native_prepare_allowed(may_prepare_native_resources: bool) -> (result: Result<(), Error>)
    ensures
        result == (if may_prepare_native_resources {
            Ok::<(), Error>(())
        } else {
            Err(Error::Other(CACHE_MISS))
        }),
{
    if may_prepare_native_resources {
        Ok(())
    } else {
        Err(Error::Other(CACHE_MISS))
    }
}

/// The CUTLASS tile that suits `m` rows.
pub open spec fn cutlass_tile(m: usize) -> i32 {
    if m <= 16 {
        0
    } else if m <= 64 {
        1
    } else if m <= 256 {
        2
    } else {
        3
    }
}

/// The FP8 tactic of a shape that was never tuned: CUTLASS where the build
/// carries it and the shape is aligned and wide enough, else the vendor route.
pub open spec fn fp8_default(build: BuildFeatures, m: usize, n: usize, k: usize) -> TacticId {
    if build.cutlass_gemm && n >= 1024 && n % 16 == 0 && k % 16 == 0 {
        TacticId { backend: TacticBackend::Cutlass, value: cutlass_tile(m) }
    } else {
        vendor_tactic()
    }
}

pub fn default_fp8_tactic(build: &BuildFeatures, m: usize, n: usize, k: usize) -> (tactic: TacticId)
    ensures
        tactic == fp8_default(*build, m, n, k),
{
    if build.cutlass_gemm && n >= 1024 && n % 16 == 0 && k % 16 == 0 {
        let value: i32 = if m <= 16 {
            0
        } else if m <= 64 {
            1
        } else if m <= 256 {
            2
        } else {
            3
        };
        return TacticId { backend: TacticBackend::Cutlass, value };
    }
    TacticId { backend: TacticBackend::Vendor, value: 0 }
}

pub fn default_bf16_tactic() -> (tactic: TacticId)
    ensures
        tactic == vendor_tactic(),
{
    TacticId { backend: TacticBackend::Vendor, value: 0 }
}

/// The default tactic of a plain product, and the vendor route that it falls
/// back to, can be installed for its key.
pub proof fn lemma_plain_defaults_are_prepared(
    build: BuildFeatures,
    key: GemmTuningKey,
    config: Option<CublasLtCustomConfig>,
)
    requires
        key.epilogue == Epilogue::Plain,
    ensures
        preparation(build, key, vendor_tactic(), config) is Ok,
        key.op == GemmOp::Fp8F16 ==> preparation(
            build,
            key,
            fp8_default(build, key.m, key.n, key.k),
            config,
        ) is Ok,
{
}

} // verus!
