//! Launch policy for the gated-delta-net kernels.
//!
//! These constants are not hardware facts and they are not portable: every one
//! of them was swept on a board and came out different on the next board. So
//! they live here: one table, chosen from the device, with an override for each
//! field so a new board can be re-swept without a rebuild.

pub mod wmma;

use crate::device_caps::{CudaArchFamily, CudaDeviceCaps};
use crate::text::{chars_of, parse_i32, parsed_i32, same, trim, trimmed};
use vstd::prelude::*;

verus! {

/// Launch constants handed to the GDN adapters.
#[derive(Clone, Copy, Debug, PartialEq, Eq, Structural)]
pub struct GdnLaunchPolicy {
    /// Cells accumulated per thread in the chunk-state kernel.
    pub chunk_state_tile: i32,
    /// Block width for the chunk-state kernel.
    pub chunk_state_threads: i32,
    /// Which form of the chunk-state scan to run; see [`wmma`].
    pub chunk_state_wmma: i32,
    /// Columns accumulated per thread in the chunk-gemm kernel.
    pub chunk_gemm_tile: i32,
    /// Threads per output column in the decode recurrence.
    pub recurrent_split: i32,
    /// How many blocks share one head's chunk-state scan, splitting the value
    /// dimension between them.
    pub chunk_state_v_split: i32,
}

/// The values of the override variables, where they are set.
#[derive(Clone, Copy, Debug)]
pub struct GdnOverrides<'a> {
    /// `APXINF_GDN_CHUNK_TILE`.
    pub chunk_state_tile: Option<&'a str>,
    /// `APXINF_GDN_CHUNK_STATE_THREADS`.
    pub chunk_state_threads: Option<&'a str>,
    /// `APXINF_GDN_CHUNK_STATE_WMMA`.
    pub chunk_state_wmma: Option<&'a str>,
    /// `APXINF_GDN_CHUNK_GEMM_TILE`.
    pub chunk_gemm_tile: Option<&'a str>,
    /// `APXINF_GDN_RECURRENT_SPLIT`.
    pub recurrent_split: Option<&'a str>,
    /// `APXINF_GDN_CHUNK_STATE_V_SPLIT`.
    pub chunk_state_v_split: Option<&'a str>,
}

pub open spec fn state_tiles() -> Seq<i32> {
    seq![1i32, 2, 4, 8, 16]
}

pub open spec fn state_threads() -> Seq<i32> {
    seq![128i32, 256, 512, 1024]
}

pub open spec fn gemm_tiles() -> Seq<i32> {
    seq![1i32, 2, 4, 8, 16, 32]
}

pub open spec fn recurrent_splits() -> Seq<i32> {
    seq![1i32, 2, 4]
}

pub open spec fn value_splits() -> Seq<i32> {
    seq![1i32, 2, 4, 8]
}

/// The number a variable gives, where it is one that is allowed; else the
/// value stays.
pub open spec fn overridden(current: i32, value: Option<&str>, allowed: Seq<i32>) -> i32 {
    match value {
        Some(text) => match parsed_i32(trimmed(text@)) {
            Some(number) => if allowed.contains(number as i32) {
                number as i32
            } else {
                current
            },
            None => current,
        },
        None => current,
    }
}

/// `0`/`off`/`false` for the scalar kernel, `1`/`lossy`/`on`/`true` for the
/// one-pass BF16 kernel; anything else leaves the form as it is.
pub open spec fn overridden_form(current: i32, value: Option<&str>) -> i32 {
    match value {
        Some(text) => {
            let word = trimmed(text@);
            if word == "0"@ || word == "off"@ || word == "false"@ {
                wmma::OFF
            } else if word == "1"@ || word == "lossy"@ || word == "on"@ || word == "true"@ {
                wmma::LOSSY
            } else {
                current
            }
        },
        None => current,
    }
}

/// The table of an architecture family. The SM100 family has tensor cores that
/// make the one-pass scan worth while; every other family gets the
/// conservative table.
pub open spec fn family_policy(family: CudaArchFamily) -> GdnLaunchPolicy {
    match family {
        CudaArchFamily::Sm100 => GdnLaunchPolicy {
            chunk_state_tile: 4,
            chunk_state_threads: 1024,
            chunk_state_wmma: wmma::LOSSY,
            chunk_gemm_tile: 4,
            recurrent_split: 4,
            chunk_state_v_split: 1,
        },
        CudaArchFamily::Sm80 | CudaArchFamily::Other(_) => GdnLaunchPolicy {
            chunk_state_tile: 8,
            chunk_state_threads: 512,
            chunk_state_wmma: wmma::OFF,
            chunk_gemm_tile: 8,
            recurrent_split: 1,
            chunk_state_v_split: 1,
        },
    }
}

pub open spec fn with_overrides(policy: GdnLaunchPolicy, overrides: GdnOverrides<'_>) -> GdnLaunchPolicy {
    GdnLaunchPolicy {
        chunk_state_tile: overridden(
            policy.chunk_state_tile,
            overrides.chunk_state_tile,
            state_tiles(),
        ),
        chunk_state_threads: overridden(
            policy.chunk_state_threads,
            overrides.chunk_state_threads,
            state_threads(),
        ),
        chunk_state_wmma: overridden_form(policy.chunk_state_wmma, overrides.chunk_state_wmma),
        chunk_gemm_tile: overridden(
            policy.chunk_gemm_tile,
            overrides.chunk_gemm_tile,
            gemm_tiles(),
        ),
        recurrent_split: overridden(
            policy.recurrent_split,
            overrides.recurrent_split,
            recurrent_splits(),
        ),
        chunk_state_v_split: overridden(
            policy.chunk_state_v_split,
            overrides.chunk_state_v_split,
            value_splits(),
        ),
    }
}

/// Blocks for one head's scan: as many as it takes to reach the multiprocessor
/// count with the 32 heads of the shipped shape, and no more than four.
pub open spec fn value_split(multiprocessor_count: u32) -> i32 {
    if multiprocessor_count >= 128 {
        4
    } else if multiprocessor_count >= 64 {
        2
    } else {
        1
    }
}

/// Whether the kernels are instantiated for a policy.
pub open spec fn launchable(policy: GdnLaunchPolicy) -> bool {
    &&& state_tiles().contains(policy.chunk_state_tile)
    &&& state_threads().contains(policy.chunk_state_threads)
    &&& policy.chunk_state_wmma == wmma::OFF || policy.chunk_state_wmma == wmma::LOSSY
    &&& gemm_tiles().contains(policy.chunk_gemm_tile)
    &&& recurrent_splits().contains(policy.recurrent_split)
    &&& value_splits().contains(policy.chunk_state_v_split)
}

/// Whatever the variables hold, an override leaves a policy that the kernels
/// are instantiated for.
pub proof fn lemma_overrides_stay_launchable(policy: GdnLaunchPolicy, overrides: GdnOverrides<'_>)
    requires
        launchable(policy),
    ensures
        launchable(with_overrides(policy, overrides)),
{
}

/// The policy of every device is one that the kernels are instantiated for.
pub proof fn lemma_device_policy_is_launchable(caps: CudaDeviceCaps, overrides: GdnOverrides<'_>)
    ensures
        launchable(device_policy(caps, overrides)),
{
    let base = GdnLaunchPolicy {
        chunk_state_v_split: value_split(caps.multiprocessor_count),
        ..family_policy(caps.arch_family)
    };
    assert(state_tiles()[2] == 4 && state_tiles()[3] == 8);
    assert(state_threads()[2] == 512 && state_threads()[3] == 1024);
    assert(gemm_tiles()[2] == 4 && gemm_tiles()[3] == 8);
    assert(recurrent_splits()[0] == 1 && recurrent_splits()[2] == 4);
    assert(value_splits()[0] == 1 && value_splits()[1] == 2 && value_splits()[2] == 4);
    lemma_overrides_stay_launchable(base, overrides);
}

/// The table of the device's family with the split that its width calls for,
/// and the overrides on top.
pub open spec fn device_policy(caps: CudaDeviceCaps, overrides: GdnOverrides<'_>) -> GdnLaunchPolicy {
    with_overrides(
        GdnLaunchPolicy {
            chunk_state_v_split: value_split(caps.multiprocessor_count),
            ..family_policy(caps.arch_family)
        },
        overrides,
    )
}

impl GdnLaunchPolicy {
    /// The measured defaults for `caps`, then any overrides.
    pub fn for_device(caps: &CudaDeviceCaps, overrides: &GdnOverrides<'_>) -> (policy: Self)
        ensures
            policy == device_policy(*caps, *overrides),
            launchable(policy),
    {
        let mut policy = Self::defaults_for(caps.arch_family);
        policy.chunk_state_v_split = chunk_state_v_split_for(caps.multiprocessor_count);
        policy.apply_overrides(overrides);
        proof {
            lemma_device_policy_is_launchable(*caps, *overrides);
        }
        policy
    }

    /// Defaults by architecture family, each swept on a board of that family.
    ///
    /// sm80 family (Orin sm_87, RTX 4090 sm_89): the chunk-gemm width is 8,
    /// because its two products are fused and 32 accumulators no longer fit the
    /// register cap; the chunk-state block is 512 wide. The tensor-core form
    /// stays off.
    ///
    /// sm100 family (Thor sm_110): chunk-state tile 4, chunk-gemm tile 4, the
    /// chunk-state scan on tensor cores, and four threads per output column in
    /// the decode recurrence.
    pub fn defaults_for(family: CudaArchFamily) -> (policy: Self)
        ensures
            policy == family_policy(family),
    {
        match family {
            CudaArchFamily::Sm100 => GdnLaunchPolicy {
                chunk_state_tile: 4,
                chunk_state_threads: 1024,
                chunk_state_wmma: wmma::LOSSY,
                chunk_gemm_tile: 4,
                recurrent_split: 4,
                chunk_state_v_split: 1,
            },
            CudaArchFamily::Sm80 | CudaArchFamily::Other(_) => GdnLaunchPolicy {
                chunk_state_tile: 8,
                chunk_state_threads: 512,
                chunk_state_wmma: wmma::OFF,
                chunk_gemm_tile: 8,
                recurrent_split: 1,
                chunk_state_v_split: 1,
            },
        }
    }

    pub fn apply_overrides(&mut self, overrides: &GdnOverrides<'_>)
        ensures
            *final(self) == with_overrides(*old(self), *overrides),
    {
        let tiles: [i32; 5] = [1, 2, 4, 8, 16];
        let threads: [i32; 4] = [128, 256, 512, 1024];
        let gemm: [i32; 6] = [1, 2, 4, 8, 16, 32];
        let recurrent: [i32; 3] = [1, 2, 4];
        let values: [i32; 4] = [1, 2, 4, 8];
        assert(tiles@ =~= state_tiles());
        assert(threads@ =~= state_threads());
        assert(gemm@ =~= gemm_tiles());
        assert(recurrent@ =~= recurrent_splits());
        assert(values@ =~= value_splits());
        override_from(overrides.chunk_state_tile, &mut self.chunk_state_tile, &tiles);
        override_from(overrides.chunk_state_threads, &mut self.chunk_state_threads, &threads);
        override_wmma(overrides.chunk_state_wmma, &mut self.chunk_state_wmma);
        override_from(overrides.chunk_gemm_tile, &mut self.chunk_gemm_tile, &gemm);
        override_from(overrides.recurrent_split, &mut self.recurrent_split, &recurrent);
        override_from(overrides.chunk_state_v_split, &mut self.chunk_state_v_split, &values);
    }
}

/// How many blocks to give one head's chunk-state scan, from the width of the
/// device.
pub fn chunk_state_v_split_for(multiprocessor_count: u32) -> (split: i32)
    ensures
        split == value_split(multiprocessor_count),
{
    let heads: u32 = 32;
    if multiprocessor_count >= heads * 4 {
        4
    } else if multiprocessor_count >= heads * 2 {
        2
    } else {
        1
    }
}

/// Accept only values the kernels are instantiated for; anything else is
/// ignored rather than passed through to a launch that would fail.
pub fn override_from(value: Option<&str>, slot: &mut i32, allowed: &[i32])
    ensures
        *final(slot) == overridden(*old(slot), value, allowed@),
{
    if let Some(text) = value {
        let word = trim(&chars_of(text));
        if let Some(number) = parse_i32(&word) {
            let mut i: usize = 0;
            while i < allowed.len()
                invariant
                    i <= allowed@.len(),
                    *slot == *old(slot),
                    forall|j: int| 0 <= j < i ==> allowed@[j] != number,
                    parsed_i32(trimmed(text@)) == Some(number as int),
                    value == Some(text),
                decreases allowed.len() - i,
            {
                if allowed[i] == number {
                    *slot = number;
                    assert(allowed@[i as int] == number);
                    return;
                }
                i = i + 1;
            }
        }
    }
}

/// Choose the form of a kernel by the word a variable holds.
pub fn override_wmma(value: Option<&str>, slot: &mut i32)
    ensures
        *final(slot) == overridden_form(*old(slot), value),
{
    if let Some(text) = value {
        let word = trim(&chars_of(text));
        if same(&word, "0") || same(&word, "off") || same(&word, "false") {
            *slot = wmma::OFF;
        } else if same(&word, "1") || same(&word, "lossy") || same(&word, "on") || same(
            &word,
            "true",
        ) {
            *slot = wmma::LOSSY;
        }
    }
}

} // verus!
