//! Identity of a tuned matrix product and the tactics that can run it.

use vstd::prelude::*;

verus! {

#[derive(Clone, Copy, Debug, PartialEq, Eq, Structural)]
pub enum GemmOp {
    Bf16,
    Fp8F16,
    Fp8Bf16,
    W8A8,
}

#[derive(Clone, Copy, Debug, PartialEq, Eq, Structural)]
pub enum TuningDType {
    Bf16,
    F16,
    F8E4M3,
    I8,
}

#[derive(Clone, Copy, Debug, PartialEq, Eq, Structural)]
pub enum GemmLayout {
    RowMajor,
    WeightOutputMajor,
}

#[derive(Clone, Copy, Debug, PartialEq, Eq, Structural)]
pub enum ScaleMode {
    /// No scaling.
    Unscaled,
    PerTensor,
    DynamicRowPerOutputChannel,
}

#[derive(Clone, Copy, Debug, PartialEq, Eq, Structural)]
pub enum Epilogue {
    /// The bare product.
    Plain,
    Bias,
    BiasGelu,
    BiasResidual,
    GeGlu,
}

/// What of a device a tuned tactic depends on.
#[derive(Clone, Copy, Debug, PartialEq, Eq, Structural)]
pub struct DeviceFingerprint {
    pub sm: u32,
    pub multiprocessor_count: u32,
}

/// One physical matrix product, as tactics are selected for it.
#[derive(Clone, Copy, Debug, PartialEq, Eq, Structural)]
pub struct GemmTuningKey {
    pub op: GemmOp,
    pub device: DeviceFingerprint,
    pub m: usize,
    pub n: usize,
    pub k: usize,
    pub activation_dtype: TuningDType,
    pub weight_dtype: TuningDType,
    pub output_dtype: TuningDType,
    pub layout: GemmLayout,
    pub scale_mode: ScaleMode,
    pub epilogue: Epilogue,
    pub workspace_limit: usize,
}

#[derive(Clone, Copy, Debug, PartialEq, Eq, Structural)]
pub enum TacticBackend {
    Vendor,
    Cutlass,
    CutlassFp8DualGeGlu,
    CutlassBf16DualGeGluM522,
    CutlassBf16DualGeGluM533,
    CutlassBf16GeGluSm89,
    CublasLt,
    CublasLtCustom,
    CublasLtCustomBias,
    CublasLtCustomSplitSerial,
    CublasLtCustomSplitGeGluCutlass,
    CublasLtCustomSplitGeGluCutlass2SmAuto,
    CublasLtCustomSplitGeGluCutlass2SmStage3,
    CublasLtCustomSplitGeGluCutlassM522Explicit2Sm,
    CublasLtCustomSplitGeGluCutlassBf16,
    GemmThenGeGlu,
}

/// A backend and the configuration it runs with.
#[derive(Clone, Copy, Debug, PartialEq, Eq, Structural)]
pub struct TacticId {
    pub backend: TacticBackend,
    pub value: i32,
}

/// A tactic offered to the tuner.
#[derive(Clone, Copy, Debug, PartialEq, Eq, Structural)]
pub struct TacticCandidate {
    pub tactic: TacticId,
}

/// Whether a tuned tactic was found for the key itself or for its shape bucket.
#[derive(Clone, Copy, Debug, PartialEq, Eq, Structural)]
pub enum TacticMatch {
    Exact,
    Bucket,
}

#[derive(Clone, Copy, Debug, PartialEq, Eq, Structural)]
pub struct ResolvedTactic {
    pub tactic: TacticId,
    pub source: TacticMatch,
}

#[derive(Clone, Copy, Debug, PartialEq, Eq, Structural)]
pub enum TuningMode {
    Inference,
    AutoTune,
}

/// The physical cuBLASLt algorithm that a custom tactic number stands for.
#[derive(Clone, Copy, Debug, PartialEq, Eq, Structural)]
pub struct CublasLtCustomConfig {
    pub tile_id: i32,
    pub custom_option: i32,
    pub stages_id: i32,
    pub cluster_shape_id: i32,
}

/// What the tuner has resolved for one key.
#[derive(Clone, Copy, Debug, PartialEq, Eq, Structural)]
pub struct TuningRecord {
    pub key: GemmTuningKey,
    pub resolved: ResolvedTactic,
}

/// The tactics that a tuner has resolved so far.
///
/// `generation` changes whenever the records do.
#[derive(Debug)]
pub struct TuningSession {
    pub generation: u64,
    pub mode: TuningMode,
    pub records: Vec<TuningRecord>,
}

/// The first record of `key`, if there is one.
pub open spec fn lookup_record(records: Seq<TuningRecord>, key: GemmTuningKey) -> Option<
    ResolvedTactic,
>
    decreases records.len(),
{
    if records.len() == 0 {
        None
    } else if records[0].key == key {
        Some(records[0].resolved)
    } else {
        lookup_record(records.skip(1), key)
    }
}

/// The tactic resolved for `key` itself, if there is one.
pub open spec fn exact_tactic(resolved: Option<ResolvedTactic>) -> Option<TacticId> {
    match resolved {
        Some(found) => if found.source == TacticMatch::Exact {
            Some(found.tactic)
        } else {
            None
        },
        None => None,
    }
}

impl TuningSession {
    pub fn generation(&self) -> (generation: u64)
        ensures
            generation == self.generation,
    {
        self.generation
    }

    pub fn mode(&self) -> (mode: TuningMode)
        ensures
            mode == self.mode,
    {
        self.mode
    }

    /// The tactic resolved for `key`, exactly or through its bucket.
    pub fn lookup_gemm(&self, key: &GemmTuningKey) -> (found: Option<ResolvedTactic>)
        ensures
            found == lookup_record(self.records@, *key),
    {
        let mut i: usize = 0;
        assert(self.records@.skip(0) =~= self.records@);
        while i < self.records.len()
            invariant
                i <= self.records.len(),
                lookup_record(self.records@, *key) == lookup_record(
                    self.records@.skip(i as int),
                    *key,
                ),
            decreases self.records.len() - i,
        {
            proof {
                assert(self.records@.skip(i as int).skip(1) =~= self.records@.skip(i + 1));
            }
            if self.records[i].key == *key {
                return Some(self.records[i].resolved);
            }
            i = i + 1;
        }
        None
    }

    /// The tactic resolved for `key` itself.
    pub fn lookup_gemm_exact(&self, key: &GemmTuningKey) -> (found: Option<TacticId>)
        ensures
            found == exact_tactic(lookup_record(self.records@, *key)),
    {
        match self.lookup_gemm(key) {
            Some(resolved) => if resolved.source == TacticMatch::Exact {
                Some(resolved.tactic)
            } else {
                None
            },
            None => None,
        }
    }
}

/// Optional native kernels that a build of the backend carries.
#[derive(Clone, Copy, Debug, PartialEq, Eq, Structural)]
pub struct BuildFeatures {
    /// CUTLASS GEMMs of the SM100 family.
    pub cutlass_gemm: bool,
    /// CUTLASS BF16 GEMMs for SM89.
    pub cutlass_bf16_sm89: bool,
    /// CUTLASS INT8 GEMMs for SM80.
    pub cutlass_int8_sm80: bool,
}

} // verus!
