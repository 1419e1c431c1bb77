//! Tactics of the CUTLASS provider.

use crate::error::Error;
use crate::tuning::{BuildFeatures, Epilogue, GemmOp, GemmTuningKey, TacticBackend, TacticId};
use vstd::prelude::*;

verus! {

pub const EPILOGUE: &'static str = "CUTLASS provider does not implement this epilogue";

pub const REJECTED: &'static str = "CUTLASS provider rejected this tactic";

/// FP8 tiles need an aligned shape that is wide enough.
pub open spec fn fp8_tile(build: BuildFeatures, key: GemmTuningKey, tactic: i32) -> bool {
    build.cutlass_gemm && key.op == GemmOp::Fp8F16 && 0 <= tactic <= 7 && key.n >= 1024 && key.n
        % 16 == 0 && key.k % 16 == 0
}

/// The INT8 tile needs aligned extents.
pub open spec fn w8a8_tile(build: BuildFeatures, key: GemmTuningKey, tactic: i32) -> bool {
    build.cutlass_int8_sm80 && key.op == GemmOp::W8A8 && tactic == 0 && key.k % 16 == 0 && key.n % 8
        == 0
}

pub open spec fn accepts(build: BuildFeatures, key: GemmTuningKey, tactic: TacticId) -> bool {
    match tactic.backend {
        TacticBackend::Cutlass => match key.op {
            GemmOp::Fp8F16 => fp8_tile(build, key, tactic.value),
            GemmOp::W8A8 => w8a8_tile(build, key, tactic.value),
            GemmOp::Bf16 | GemmOp::Fp8Bf16 => false,
        },
        TacticBackend::CutlassFp8DualGeGlu => key.op == GemmOp::Fp8F16 && (key.m == 522 || key.m
            == 533) && key.n == 32768 && key.k == 2048 && tactic.value == 0,
        TacticBackend::CutlassBf16DualGeGluM522 => key.op == GemmOp::Bf16 && key.m == 522 && key.n
            == 32768 && key.k == 2048 && tactic.value == 0,
        TacticBackend::CutlassBf16DualGeGluM533 => key.op == GemmOp::Bf16 && key.m == 533 && key.n
            == 32768 && key.k == 2048 && tactic.value == 0,
        _ => false,
    }
}

/// The epilogue that a backend computes: the dual-GEMM backends are whole GeGLU
/// operators, the tiles plain products.
pub open spec fn backend_epilogue(backend: TacticBackend) -> Epilogue {
    match backend {
        TacticBackend::CutlassFp8DualGeGlu | TacticBackend::CutlassBf16DualGeGluM522
        | TacticBackend::CutlassBf16DualGeGluM533 => Epilogue::GeGlu,
        _ => Epilogue::Plain,
    }
}

/// Why the provider cannot run a tactic for a key.
pub open spec fn refusal(build: BuildFeatures, key: GemmTuningKey, tactic: TacticId) -> Option<
    Error,
> {
    if key.epilogue != backend_epilogue(tactic.backend) {
        Some(Error::Other(EPILOGUE))
    } else if !accepts(build, key, tactic) {
        Some(Error::Other(REJECTED))
    } else {
        None
    }
}

/// Check that the provider can run `tactic`; there is nothing to install.
pub fn prepare(build: &BuildFeatures, key: &GemmTuningKey, tactic: TacticId) -> (result: Result<
    (),
    Error,
>)
    ensures
        result == (match refusal(*build, *key, tactic) {
            Some(error) => Err(error),
            None => Ok::<(), Error>(()),
        }),
{
    let epilogue = match tactic.backend {
        TacticBackend::CutlassFp8DualGeGlu | TacticBackend::CutlassBf16DualGeGluM522
        | TacticBackend::CutlassBf16DualGeGluM533 => Epilogue::GeGlu,
        _ => Epilogue::Plain,
    };
    if key.epilogue != epilogue {
        return Err(Error::Other(EPILOGUE));
    }
    let valid = match tactic.backend {
        TacticBackend::Cutlass => match key.op {
            GemmOp::Fp8F16 => fp8_supported(build, key, tactic.value),
            GemmOp::W8A8 => w8a8_supported(build, key, tactic.value),
            GemmOp::Bf16 | GemmOp::Fp8Bf16 => false,
        },
        TacticBackend::CutlassFp8DualGeGlu => key.op == GemmOp::Fp8F16 && (key.m == 522 || key.m
            == 533) && key.n == 32768 && key.k == 2048 && tactic.value == 0,
        TacticBackend::CutlassBf16DualGeGluM522 => key.op == GemmOp::Bf16 && key.m == 522 && key.n
            == 32768 && key.k == 2048 && tactic.value == 0,
        TacticBackend::CutlassBf16DualGeGluM533 => key.op == GemmOp::Bf16 && key.m == 533 && key.n
            == 32768 && key.k == 2048 && tactic.value == 0,
        _ => false,
    };
    if valid {
        Ok(())
    } else {
        Err(Error::Other(REJECTED))
    }
}

/// The tactics offered for a key.
pub open spec fn offered(build: BuildFeatures, key: GemmTuningKey) -> Seq<TacticId> {
    if fp8_tile(build, key, 0) {
        Seq::new(8, |value: int| TacticId { backend: TacticBackend::Cutlass, value: value as i32 })
    } else if w8a8_tile(build, key, 0) {
        seq![TacticId { backend: TacticBackend::Cutlass, value: 0 }]
    } else {
        Seq::empty()
    }
}

pub fn candidates(build: &BuildFeatures, key: &GemmTuningKey) -> (candidates: Vec<TacticId>)
    ensures
        candidates@ == offered(*build, *key),
{
    let mut result: Vec<TacticId> = Vec::new();
    if key.op == GemmOp::Fp8F16 {
        let mut value: i32 = 0;
        while value <= 7
            invariant
                0 <= value <= 8,
                key.op == GemmOp::Fp8F16,
                result@ == (if fp8_tile(*build, *key, 0) {
                    Seq::new(
                        value as nat,
                        |value: int| TacticId { backend: TacticBackend::Cutlass, value: value as i32 },
                    )
                } else {
                    Seq::empty()
                }),
            decreases 8 - value,
        {
            if fp8_supported(build, key, value) {
                result.push(TacticId { backend: TacticBackend::Cutlass, value });
            }
            value = value + 1;
            assert(result@ =~= (if fp8_tile(*build, *key, 0) {
                Seq::new(
                    value as nat,
                    |value: int| TacticId { backend: TacticBackend::Cutlass, value: value as i32 },
                )
            } else {
                Seq::empty()
            }));
        }
    }
    if w8a8_supported(build, key, 0) {
        result.push(TacticId { backend: TacticBackend::Cutlass, value: 0 });
    }
    assert(result@ =~= offered(*build, *key));
    result
}

pub proof fn lemma_offered(build: BuildFeatures, key: GemmTuningKey, i: int)
    requires
        key.epilogue == Epilogue::Plain,
        0 <= i < offered(build, key).len(),
    ensures
        offered(build, key)[i].backend == TacticBackend::Cutlass,
        refusal(build, key, offered(build, key)[i]) is None,
{
}

fn fp8_supported(build: &BuildFeatures, key: &GemmTuningKey, tactic: i32) -> (result: bool)
    ensures
        result == fp8_tile(*build, *key, tactic),
{
    build.cutlass_gemm && key.op == GemmOp::Fp8F16 && 0 <= tactic && tactic <= 7 && key.n >= 1024
        && key.n % 16 == 0 && key.k % 16 == 0
}

fn w8a8_supported(build: &BuildFeatures, key: &GemmTuningKey, tactic: i32) -> (result: bool)
    ensures
        result == w8a8_tile(*build, *key, tactic),
{
    build.cutlass_int8_sm80 && key.op == GemmOp::W8A8 && tactic == 0 && key.k % 16 == 0 && key.n % 8
        == 0
}

} // verus!
