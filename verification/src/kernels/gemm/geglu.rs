//! The order in which a gate/up projection with GeGLU is resolved, prepared,
//! launched and, where its tactic fails, run again in two kernels.

use crate::tuning::{TacticBackend, TacticId};
use vstd::prelude::*;

verus! {

/// A product followed by the stand-alone activation kernel.
pub open spec fn decomposed() -> TacticId {
    TacticId { backend: TacticBackend::GemmThenGeGlu, value: 0 }
}

pub fn decomposed_geglu_tactic() -> (tactic: TacticId)
    ensures
        tactic == decomposed(),
{
    TacticId { backend: TacticBackend::GemmThenGeGlu, value: 0 }
}

/// The next thing a run has to do.
#[derive(Clone, Copy, Debug, PartialEq, Eq, Structural)]
pub enum GegluStage {
    /// Resolve the plain product's plan before the tuner takes its lock.
    ResolveDependency,
    /// Resolve the whole operator.
    ResolveFused,
    /// Resolve the plain product's plan for a decomposed tactic.
    ResolvePlain,
    AllocateGate,
    AllocateOutput,
    Prepare,
    Launch,
    /// Install the decomposed tactic in place of the one that failed.
    Fallback,
    FallbackResolvePlain,
    FallbackAllocateGate,
    FallbackPrepare,
    FallbackLaunch,
    Done,
    /// The last call's error is the result.
    Failed,
}

/// A run of the operator.
#[derive(Clone, Copy, Debug, PartialEq, Eq, Structural)]
pub struct GegluRun {
    pub stage: GegluStage,
    /// Whether a weight in plain layout is at hand.
    pub plain_weight: bool,
    /// The tactic of a shape that was never tuned.
    pub default: TacticId,
    /// The resolved tactic, once there is one.
    pub tactic: TacticId,
    /// Whether the resolved tactic writes a gate buffer.
    pub uses_gate: bool,
    /// Whether the plain product has a plan.
    pub plain_plan: bool,
    /// Whether a gate buffer is allocated.
    pub gate: bool,
    /// Whether native resources may be prepared.
    pub may_prepare: bool,
}

/// What a stage came back with.
#[derive(Clone, Copy, Debug, PartialEq, Eq, Structural)]
pub enum GegluEvent {
    Succeeded,
    /// The operator was resolved to a tactic.
    Resolved { tactic: TacticId, uses_gate: bool },
    Failed,
}

/// A run that begins. A cold key first resolves the product that its
/// decomposed candidate needs.
pub open spec fn geglu_begins(
    plain_weight: bool,
    exact_tactic_known: bool,
    default: TacticId,
    may_prepare: bool,
) -> GegluRun {
    GegluRun {
        stage: if !exact_tactic_known && plain_weight {
            GegluStage::ResolveDependency
        } else {
            GegluStage::ResolveFused
        },
        plain_weight,
        default,
        tactic: default,
        uses_gate: false,
        plain_plan: false,
        gate: false,
        may_prepare,
    }
}

pub fn geglu_start(
    plain_weight: bool,
    exact_tactic_known: bool,
    default: TacticId,
    may_prepare: bool,
) -> (run: GegluRun)
    ensures
        run == geglu_begins(plain_weight, exact_tactic_known, default, may_prepare),
        run.wf(),
{
    GegluRun {
        stage: if !exact_tactic_known && plain_weight {
            GegluStage::ResolveDependency
        } else {
            GegluStage::ResolveFused
        },
        plain_weight,
        default,
        tactic: default,
        uses_gate: false,
        plain_plan: false,
        gate: false,
        may_prepare,
    }
}

/// What is allocated next.
pub open spec fn allocation_stage(run: GegluRun) -> GegluStage {
    if run.uses_gate {
        GegluStage::AllocateGate
    } else {
        GegluStage::AllocateOutput
    }
}

/// What the fallback still lacks.
pub open spec fn fallback_stage(run: GegluRun) -> GegluStage {
    if !run.plain_plan {
        GegluStage::FallbackResolvePlain
    } else if !run.gate {
        GegluStage::FallbackAllocateGate
    } else {
        GegluStage::FallbackPrepare
    }
}

pub open spec fn geglu_next(run: GegluRun, event: GegluEvent) -> GegluRun {
    let failed = GegluRun { stage: GegluStage::Failed, ..run };
    match run.stage {
        GegluStage::Done | GegluStage::Failed => run,
        GegluStage::ResolveFused => match event {
            GegluEvent::Resolved { tactic, uses_gate } => {
                let resolved = GegluRun { tactic, uses_gate, ..run };
                if tactic.backend == TacticBackend::GemmThenGeGlu && !run.plain_plan
                    && run.plain_weight {
                    GegluRun { stage: GegluStage::ResolvePlain, ..resolved }
                } else {
                    GegluRun { stage: allocation_stage(resolved), ..resolved }
                }
            },
            _ => failed,
        },
        GegluStage::Launch => match event {
            GegluEvent::Succeeded => GegluRun { stage: GegluStage::Done, ..run },
            GegluEvent::Failed => if run.tactic == run.default || !run.plain_weight {
                failed
            } else {
                GegluRun { stage: GegluStage::Fallback, ..run }
            },
            _ => failed,
        },
        stage => match event {
            GegluEvent::Succeeded => match stage {
                GegluStage::ResolveDependency => GegluRun {
                    stage: GegluStage::ResolveFused,
                    plain_plan: true,
                    ..run
                },
                GegluStage::ResolvePlain => GegluRun {
                    stage: allocation_stage(run),
                    plain_plan: true,
                    ..run
                },
                GegluStage::AllocateGate => GegluRun {
                    stage: GegluStage::AllocateOutput,
                    gate: true,
                    ..run
                },
                GegluStage::AllocateOutput => GegluRun {
                    stage: if run.may_prepare {
                        GegluStage::Prepare
                    } else {
                        GegluStage::Launch
                    },
                    ..run
                },
                GegluStage::Prepare => GegluRun { stage: GegluStage::Launch, ..run },
                GegluStage::Fallback => GegluRun { stage: fallback_stage(run), ..run },
                GegluStage::FallbackResolvePlain => GegluRun {
                    stage: fallback_stage(GegluRun { plain_plan: true, ..run }),
                    plain_plan: true,
                    ..run
                },
                GegluStage::FallbackAllocateGate => GegluRun {
                    stage: GegluStage::FallbackPrepare,
                    gate: true,
                    ..run
                },
                GegluStage::FallbackPrepare => GegluRun {
                    stage: GegluStage::FallbackLaunch,
                    ..run
                },
                _ => GegluRun { stage: GegluStage::Done, ..run },
            },
            _ => failed,
        },
    }
}

/// How far a stage is from the beginning.
pub open spec fn stage_rank(stage: GegluStage) -> int {
    match stage {
        GegluStage::ResolveDependency => 0,
        GegluStage::ResolveFused => 1,
        GegluStage::ResolvePlain => 2,
        GegluStage::AllocateGate => 3,
        GegluStage::AllocateOutput => 4,
        GegluStage::Prepare => 5,
        GegluStage::Launch => 6,
        GegluStage::Fallback => 7,
        GegluStage::FallbackResolvePlain => 8,
        GegluStage::FallbackAllocateGate => 9,
        GegluStage::FallbackPrepare => 10,
        GegluStage::FallbackLaunch => 11,
        GegluStage::Done | GegluStage::Failed => 12,
    }
}

impl GegluRun {
    /// What holds of every run: a launch finds the buffers and the plan that
    /// its tactic needs, and only a run with a plain weight falls back.
    pub open spec fn wf(self) -> bool {
        let rank = stage_rank(self.stage);
        &&& self.plain_plan || rank == 0 || rank == 2 ==> self.plain_weight
        &&& 4 <= rank <= 6 && self.uses_gate ==> self.gate
        &&& 3 <= rank <= 6 && self.tactic.backend == TacticBackend::GemmThenGeGlu
            && self.plain_weight ==> self.plain_plan
        &&& 7 <= rank <= 11 ==> self.plain_weight && self.tactic != self.default
        &&& self.stage == GegluStage::FallbackAllocateGate ==> self.plain_plan
        &&& 10 <= rank <= 11 ==> self.plain_plan && self.gate
    }

    /// The run after its stage came back with `event`.
    pub fn advance(&self, event: GegluEvent) -> (next: GegluRun)
        requires
            self.wf(),
        ensures
            next == geglu_next(*self, event),
            next.wf(),
            stage_rank(self.stage) < 12 ==> stage_rank(next.stage) > stage_rank(self.stage),
    {
        let mut next: GegluRun = *self;
        let ok = match event {
            GegluEvent::Succeeded => true,
            _ => false,
        };
        match self.stage {
            GegluStage::Done | GegluStage::Failed => {},
            GegluStage::ResolveFused => match event {
                GegluEvent::Resolved { tactic, uses_gate } => {
                    next.tactic = tactic;
                    next.uses_gate = uses_gate;
                    next.stage = if tactic.backend == TacticBackend::GemmThenGeGlu
                        && !self.plain_plan && self.plain_weight {
                        GegluStage::ResolvePlain
                    } else if uses_gate {
                        GegluStage::AllocateGate
                    } else {
                        GegluStage::AllocateOutput
                    };
                },
                _ => {
                    next.stage = GegluStage::Failed;
                },
            },
            GegluStage::Launch => {
                next.stage = match event {
                    GegluEvent::Succeeded => GegluStage::Done,
                    GegluEvent::Failed => if self.tactic == self.default || !self.plain_weight {
                        GegluStage::Failed
                    } else {
                        GegluStage::Fallback
                    },
                    _ => GegluStage::Failed,
                };
            },
            _ => {
                if !ok {
                    next.stage = GegluStage::Failed;
                } else {
                    match self.stage {
                        GegluStage::ResolveDependency => {
                            next.plain_plan = true;
                            next.stage = GegluStage::ResolveFused;
                        },
                        GegluStage::ResolvePlain => {
                            next.plain_plan = true;
                            next.stage = if self.uses_gate {
                                GegluStage::AllocateGate
                            } else {
                                GegluStage::AllocateOutput
                            };
                        },
                        GegluStage::AllocateGate => {
                            next.gate = true;
                            next.stage = GegluStage::AllocateOutput;
                        },
                        GegluStage::AllocateOutput => {
                            next.stage = if self.may_prepare {
                                GegluStage::Prepare
                            } else {
                                GegluStage::Launch
                            };
                        },
                        GegluStage::Prepare => {
                            next.stage = GegluStage::Launch;
                        },
                        GegluStage::Fallback => {
                            next.stage = if !self.plain_plan {
                                GegluStage::FallbackResolvePlain
                            } else if !self.gate {
                                GegluStage::FallbackAllocateGate
                            } else {
                                GegluStage::FallbackPrepare
                            };
                        },
                        GegluStage::FallbackResolvePlain => {
                            next.plain_plan = true;
                            next.stage = if !self.gate {
                                GegluStage::FallbackAllocateGate
                            } else {
                                GegluStage::FallbackPrepare
                            };
                        },
                        GegluStage::FallbackAllocateGate => {
                            next.gate = true;
                            next.stage = GegluStage::FallbackPrepare;
                        },
                        GegluStage::FallbackPrepare => {
                            next.stage = GegluStage::FallbackLaunch;
                        },
                        _ => {
                            next.stage = GegluStage::Done;
                        },
                    }
                }
            },
        }
        next
    }
}

/// A tactic that fails is replaced at most once: after the fallback no failure
/// leads to another one.
pub proof fn lemma_fallback_is_final(run: GegluRun, event: GegluEvent)
    requires
        7 <= stage_rank(run.stage) <= 11,
    ensures
        event == GegluEvent::Failed ==> geglu_next(run, event).stage == GegluStage::Failed,
        stage_rank(geglu_next(run, event).stage) > 7,
{
}

} // verus!
