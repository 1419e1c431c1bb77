//! What a build carries of attention kernels, and what the environment asks.

use crate::text::{chars_of, same, EnvironmentValue};
use vstd::prelude::*;

verus! {

/// Optional native attention kernels of a build.
#[derive(Clone, Copy, Debug, PartialEq, Eq, Structural)]
pub struct AttentionBuild {
    /// FlashAttention-2 for the SM80 family.
    pub fa2_sm80: bool,
    /// FlashAttention-2, FP16 and BF16, for the SM100 family.
    pub fa2_f16_sm100: bool,
    /// The head-64 and head-256 specialisations of FlashAttention-2.
    pub fa2_head_special: bool,
    /// FlashAttention-2 with a direct E4M3 result, for the SM100 family.
    pub fa2_direct_e4m3_sm100: bool,
    /// CUTLASS fused multi-head attention.
    pub cutlass_fmha: bool,
}

impl AttentionBuild {
    /// Whether BF16 FlashAttention-2 is compiled.
    pub open spec fn has_fa2(self) -> bool {
        self.fa2_sm80 || self.fa2_f16_sm100
    }

    pub fn fa2(&self) -> (result: bool)
        ensures
            result == self.has_fa2(),
    {
        self.fa2_sm80 || self.fa2_f16_sm100
    }
}

/// Switches that the environment sets.
#[derive(Clone, Copy, Debug, PartialEq, Eq, Structural)]
pub struct AttentionSwitches {
    /// `APXINF_PREFILL_SDPA_LEGACY` is set.
    pub prefill_legacy: bool,
    /// `APXINF_VISION_SDPA_LEGACY` is set.
    pub vision_legacy: bool,
    /// `APXINF_DISABLE_FA2_SPLITKV` is set.
    pub no_splitkv: bool,
    /// `APXINF_ATTN_COMPOSED_PREFILL` is set.
    pub composed_prefill: bool,
    /// `APXINF_ATTN_COMPOSED_DECODE` is set.
    pub composed_decode: bool,
    /// `APXINF_VISION_SCORES_FP32` is set.
    pub wide_scores: bool,
    /// What `vision_fa2_enabled` makes of `APXINF_VISION_FA2`.
    pub vision_fa2: bool,
}

pub open spec fn vision_fa2(value: EnvironmentValue) -> bool {
    match value {
        EnvironmentValue::Text(text) => !(text@ == "0"@ || text@ == "false"@),
        _ => true,
    }
}

/// Whether the vision tower's head-64 segments use the FlashAttention-2
/// specialisation. On by default wherever it is compiled; `0` and `false`
/// switch it off.
pub fn vision_fa2_enabled(value: &EnvironmentValue) -> (enabled: bool)
    ensures
        enabled == vision_fa2(*value),
{
    match value {
        EnvironmentValue::Text(text) => {
            let chars = chars_of(text.as_str());
            !(same(&chars, "0") || same(&chars, "false"))
        },
        _ => true,
    }
}

} // verus!
