//! Measuring candidate tactics: what is read back, what is evicted between
//! launches, and in which order a candidate is checked and timed.

use crate::error::Error;
use vstd::prelude::*;

verus! {

/// The bits of a 32-bit float that has the value of a BF16 number. A NaN is
/// made quiet.
pub open spec fn widened_bf16(bits: u16) -> u32 {
    let quiet = if bits % 0x8000 > 0x7f80 && bits / 0x40 % 2 == 0 {
        bits + 0x40
    } else {
        bits as int
    };
    (quiet * 0x1_0000) as u32
}

/// `half::bf16::to_f32`: a BF16 number as a 32-bit float of the same value,
/// here both by their bits. A NaN keeps its payload and becomes quiet.
#[verifier::external_body]
fn bf16_to_f32_bits(bits: u16) -> (wide: u32)
    ensures
        wide == widened_bf16(bits),
{
    half::bf16::from_bits(bits).to_f32().to_bits()
}

/// The values of a BF16 result that was copied to the host, as the bits of
/// 32-bit floats.
pub fn decode_bf16_output(words: &[u16]) -> (values: Vec<u32>)
    ensures
        values@ == words@.map_values(|bits: u16| widened_bf16(bits)),
{
    let mut values: Vec<u32> = Vec::new();
    let mut i: usize = 0;
    while i < words.len()
        invariant
            i <= words@.len(),
            values@ == words@.take(i as int).map_values(|bits: u16| widened_bf16(bits)),
        decreases words.len() - i,
    {
        values.push(bf16_to_f32_bits(words[i]));
        i = i + 1;
        assert(values@ =~= words@.take(i as int).map_values(|bits: u16| widened_bf16(bits)));
    }
    assert(words@.take(i as int) =~= words@);
    values
}

pub const EMPTY_L2: &'static str = "CUDA reported an empty L2 cache";

pub const EVICTION_OVERFLOW: &'static str = "cold-L2 eviction buffer size overflow";

/// Four times the L2 cache, rounded up to a multiple of 256.
pub open spec fn eviction_bytes(l2_cache_bytes: i32) -> Result<usize, Error> {
    if l2_cache_bytes <= 0 {
        Err(Error::Other(EMPTY_L2))
    } else if l2_cache_bytes * 4 + 255 > usize::MAX {
        Err(Error::Other(EVICTION_OVERFLOW))
    } else {
        Ok(((l2_cache_bytes * 4 + 255) / 256 * 256) as usize)
    }
}

/// The size of the buffer whose traversal evicts the L2 cache.
pub fn cold_l2_tuning_metadata(l2_cache_bytes: i32) -> (result: Result<usize, Error>)
    ensures
        result == eviction_bytes(l2_cache_bytes),
{
    if l2_cache_bytes <= 0 {
        return Err(Error::Other(EMPTY_L2));
    }
    let wide: u64 = l2_cache_bytes as u64 * 4 + 255;
    if wide > usize::MAX as u64 {
        return Err(Error::Other(EVICTION_OVERFLOW));
    }
    Ok((wide / 256 * 256) as usize)
}

/// Evicts the L2 cache before a launch; every eviction writes another pattern.
#[derive(Clone, Copy, Debug, PartialEq, Eq, Structural)]
pub struct ColdL2Evictor {
    pub bytes: usize,
    pub seed: u32,
}

impl ColdL2Evictor {
    pub fn new(l2_cache_bytes: i32) -> (result: Result<Self, Error>)
        ensures
            match eviction_bytes(l2_cache_bytes) {
                Ok(bytes) => result == Ok::<Self, Error>(ColdL2Evictor { bytes, seed: 0 }),
                Err(error) => result == Err::<Self, Error>(error),
            },
    {
        let bytes: usize = cold_l2_tuning_metadata(l2_cache_bytes)?;
        Ok(ColdL2Evictor { bytes, seed: 0 })
    }

    /// The seed for the next eviction.
    pub fn evict(&mut self) -> (seed: u32)
        ensures
            final(self).bytes == old(self).bytes,
            final(self).seed == seed,
            seed == (if old(self).seed == u32::MAX {
                0u32
            } else {
                (old(self).seed + 1) as u32
            }),
    {
        self.seed = self.seed.wrapping_add(1);
        self.seed
    }
}

/// How far the measurement of one candidate has come.
#[derive(Clone, Copy, Debug, PartialEq, Eq, Structural)]
pub enum Phase {
    /// Install the tactic.
    Prepare,
    /// Launch once, wait, and compare the result with the reference.
    Check,
    /// Launch untimed; so many are done.
    Warmup(u32),
    /// Wait for the warm-up launches.
    Settle,
    /// Launch timed; so many are done.
    Measure(u32),
    /// The candidate has a mean time.
    Timed,
    /// The candidate's result differs from the reference.
    Wrong,
    /// A native call failed.
    Broken,
}

/// What a phase came back with.
#[derive(Clone, Copy, Debug, PartialEq, Eq, Structural)]
pub enum Outcome {
    Succeeded,
    /// The check's result, close to the reference or not.
    Compared(bool),
    Failed,
}

/// The measurement of one candidate tactic.
#[derive(Clone, Copy, Debug, PartialEq, Eq, Structural)]
pub struct CandidateRun {
    pub warmup_iterations: u32,
    pub benchmark_iterations: u32,
    pub phase: Phase,
}

/// The phase that follows the warm-up launches done so far.
pub open spec fn warm(run: CandidateRun, done: u32) -> Phase {
    if done < run.warmup_iterations {
        Phase::Warmup(done)
    } else {
        Phase::Settle
    }
}

/// The phase that follows the timed launches done so far.
pub open spec fn timed(run: CandidateRun, done: u32) -> Phase {
    if done < run.benchmark_iterations {
        Phase::Measure(done)
    } else {
        Phase::Timed
    }
}

pub open spec fn next_phase(run: CandidateRun, outcome: Outcome) -> Phase {
    match (run.phase, outcome) {
        (Phase::Timed, _) | (Phase::Wrong, _) | (Phase::Broken, _) => run.phase,
        (_, Outcome::Failed) => Phase::Broken,
        (Phase::Check, Outcome::Compared(close)) => if close {
            warm(run, 0)
        } else {
            Phase::Wrong
        },
        (Phase::Prepare, Outcome::Succeeded) => Phase::Check,
        (Phase::Warmup(done), Outcome::Succeeded) => if done < run.warmup_iterations {
            warm(run, (done + 1) as u32)
        } else {
            Phase::Settle
        },
        (Phase::Settle, Outcome::Succeeded) => timed(run, 0),
        (Phase::Measure(done), Outcome::Succeeded) => if done < run.benchmark_iterations {
            timed(run, (done + 1) as u32)
        } else {
            Phase::Timed
        },
        _ => Phase::Broken,
    }
}

impl CandidateRun {
    pub fn new(warmup_iterations: u32, benchmark_iterations: u32) -> (run: Self)
        ensures
            run == (CandidateRun {
                warmup_iterations,
                benchmark_iterations,
                phase: Phase::Prepare,
            }),
    {
        CandidateRun { warmup_iterations, benchmark_iterations, phase: Phase::Prepare }
    }

    fn warm_phase(&self, done: u32) -> (phase: Phase)
        ensures
            phase == warm(*self, done),
    {
        if done < self.warmup_iterations {
            Phase::Warmup(done)
        } else {
            Phase::Settle
        }
    }

    fn timed_phase(&self, done: u32) -> (phase: Phase)
        ensures
            phase == timed(*self, done),
    {
        if done < self.benchmark_iterations {
            Phase::Measure(done)
        } else {
            Phase::Timed
        }
    }

    /// The run after its phase came back with `outcome`.
    pub fn advance(&self, outcome: Outcome) -> (next: CandidateRun)
        ensures
            next == (CandidateRun { phase: next_phase(*self, outcome), ..*self }),
    {
        let phase = match (self.phase, outcome) {
            (Phase::Timed, _) | (Phase::Wrong, _) | (Phase::Broken, _) => self.phase,
            (_, Outcome::Failed) => Phase::Broken,
            (Phase::Check, Outcome::Compared(close)) => if close {
                self.warm_phase(0)
            } else {
                Phase::Wrong
            },
            (Phase::Prepare, Outcome::Succeeded) => Phase::Check,
            (Phase::Warmup(done), Outcome::Succeeded) => if done < self.warmup_iterations {
                self.warm_phase(done + 1)
            } else {
                Phase::Settle
            },
            (Phase::Settle, Outcome::Succeeded) => self.timed_phase(0),
            (Phase::Measure(done), Outcome::Succeeded) => if done < self.benchmark_iterations {
                self.timed_phase(done + 1)
            } else {
                Phase::Timed
            },
            _ => Phase::Broken,
        };
        CandidateRun {
            warmup_iterations: self.warmup_iterations,
            benchmark_iterations: self.benchmark_iterations,
            phase,
        }
    }
}

/// The run after `steps` phases that all succeed.
pub open spec fn after_successes(run: CandidateRun, steps: nat) -> CandidateRun
    decreases steps,
{
    if steps == 0 {
        run
    } else {
        let before = after_successes(run, (steps - 1) as nat);
        CandidateRun { phase: next_phase(before, Outcome::Succeeded), ..before }
    }
}

/// A candidate whose result is close to the reference, and whose calls all
/// succeed, is launched `warmup_iterations` times untimed and then exactly
/// `benchmark_iterations` times timed.
pub proof fn lemma_correct_candidate_is_timed(warmup: u32, benchmark: u32, step: nat)
    ensures
        ({
            let checked = CandidateRun {
                warmup_iterations: warmup,
                benchmark_iterations: benchmark,
                phase: Phase::Check,
            };
            let warm_run = CandidateRun {
                phase: next_phase(checked, Outcome::Compared(true)),
                ..checked
            };
            after_successes(warm_run, step) == (CandidateRun {
                phase: if step < warmup {
                    Phase::Warmup(step as u32)
                } else if step == warmup {
                    Phase::Settle
                } else if step - warmup - 1 < benchmark {
                    Phase::Measure((step - warmup - 1) as u32)
                } else {
                    Phase::Timed
                },
                ..checked
            })
        }),
    decreases step,
{
    if step > 0 {
        lemma_correct_candidate_is_timed(warmup, benchmark, (step - 1) as nat);
    }
}

/// A candidate that is wrong or broken stays so: it is never timed.
pub proof fn lemma_rejected_candidate_is_never_timed(run: CandidateRun, outcome: Outcome)
    requires
        run.phase == Phase::Wrong || run.phase == Phase::Broken,
    ensures
        next_phase(run, outcome) == run.phase,
{
}

} // verus!
