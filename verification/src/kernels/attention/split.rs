//! How far a key/value sequence is split across the device.

use super::binary32::{
    at_least, ceil, ceiling, divide, from_integer, greater, half_even, integer, multiply, nearest,
    not_below, quotient, rounded_product, Binary32,
};
use vstd::prelude::*;

verus! {

/// `n / tile`, rounded up.
pub open spec fn tiles(n: int, tile: int) -> int {
    (n + tile - 1) / tile
}

pub fn tile_count(n: usize, tile: usize) -> (count: usize)
    requires
        tile > 0,
    ensures
        count == tiles(n as int, tile as int),
        n > 0 ==> 1 <= count <= n,
        n == 0 ==> count == 0,
{
    proof {
        lemma_tiles(n as int, tile as int);
    }
    if n % tile == 0 {
        n / tile
    } else {
        n / tile + 1
    }
}

proof fn lemma_tiles(n: int, tile: int)
    requires
        n >= 0,
        tile > 0,
    ensures
        n % tile == 0 ==> tiles(n, tile) == n / tile,
        n % tile != 0 ==> tiles(n, tile) == n / tile + 1,
        n > 0 ==> 1 <= tiles(n, tile) <= n,
        n == 0 ==> tiles(n, tile) == 0,
{
    let q = n / tile;
    let r = n % tile;
    vstd::arithmetic::div_mod::lemma_fundamental_div_mod(n, tile);
    if r == 0 {
        assert((tile * q + tile - 1) / tile == q) by (nonlinear_arith)
            requires
                tile > 0,
        ;
    } else {
        assert((tile * q + r + tile - 1) / tile == q + 1) by (nonlinear_arith)
            requires
                tile > 0,
                0 < r < tile,
        ;
    }
    assert(0 <= q <= n) by (nonlinear_arith)
        requires
            n == tile * q + r,
            0 <= r < tile,
            n >= 0,
    ;
    if n > 0 && r == 0 {
        assert(q >= 1) by (nonlinear_arith)
            requires
                n == tile * q,
                n > 0,
                tile > 0,
        ;
    }
    if r != 0 {
        assert(q + 1 <= n) by (nonlinear_arith)
            requires
                n == tile * q + r,
                0 < r < tile,
                q >= 0,
        ;
    }
}

/// How many keys one tile covers.
pub open spec fn key_tile(head_dim: int) -> int {
    if head_dim <= 64 {
        256
    } else if head_dim <= 128 {
        128
    } else {
        64
    }
}

pub fn key_tile_rows(head_dim: usize) -> (rows: usize)
    ensures
        rows == key_tile(head_dim as int),
{
    if head_dim <= 64 {
        256
    } else if head_dim <= 128 {
        128
    } else {
        64
    }
}

/// The greatest machine word that is not above a number.
pub open spec fn saturated(n: int) -> int {
    if n > usize::MAX {
        usize::MAX as int
    } else {
        n
    }
}

fn saturating_product(a: usize, b: usize) -> (product: usize)
    ensures
        product == saturated(a * b),
{
    match a.checked_mul(b) {
        Some(product) => product,
        None => usize::MAX,
    }
}

/// Work of attention before it is split: jobs, execution slots and key tiles.
#[derive(Clone, Copy, Debug, PartialEq, Eq, Structural)]
pub struct SplitWork {
    pub base_jobs: usize,
    pub execution_slots: usize,
    pub key_tiles: usize,
}

pub open spec fn split_work(
    batches: usize,
    query_tokens: usize,
    key_tokens: usize,
    query_heads: usize,
    head_dim: usize,
    multiprocessors: usize,
) -> SplitWork {
    SplitWork {
        base_jobs: saturated(
            saturated(batches * query_heads) * tiles(query_tokens as int, 64),
        ) as usize,
        execution_slots: saturated(multiprocessors * 2) as usize,
        key_tiles: tiles(key_tokens as int, key_tile(head_dim as int)) as usize,
    }
}

/// The greatest number of splits that is tried.
pub open spec fn split_limit(work: SplitWork) -> int {
    let slots = if work.execution_slots < 128 {
        work.execution_slots as int
    } else {
        128
    };
    if work.key_tiles < slots {
        work.key_tiles as int
    } else {
        slots
    }
}

/// Whether one more split makes the longest part shorter.
pub open spec fn eligible(work: SplitWork, splits: int) -> bool {
    splits == 1 || tiles(work.key_tiles as int, splits) != tiles(
        work.key_tiles as int,
        splits - 1,
    )
}

/// How many waves of jobs the device runs.
pub open spec fn waves(work: SplitWork, splits: int) -> (int, int) {
    quotient(integer(saturated(work.base_jobs * splits)), integer(work.execution_slots as int))
}

/// The share of the slots that is busy, rounded step by step as 32-bit floats
/// are.
pub open spec fn utilization(work: SplitWork, splits: int) -> (int, int) {
    quotient(waves(work, splits), ceiling(waves(work, splits)))
}

/// The best utilization of an eligible number of splits up to `limit`.
pub open spec fn peak(work: SplitWork, limit: int) -> (int, int)
    decreases limit,
{
    if limit <= 1 {
        utilization(work, 1)
    } else if eligible(work, limit) {
        greater(peak(work, limit - 1), utilization(work, limit))
    } else {
        peak(work, limit - 1)
    }
}

/// The 32-bit float nearest to 0.85.
pub open spec fn share() -> (int, int) {
    (14260634, -24)
}

/// Whether a number of splits is eligible and busy enough.
pub open spec fn fits(work: SplitWork, splits: int, bar: (int, int)) -> bool {
    eligible(work, splits) && at_least(utilization(work, splits), bar)
}

/// The first number of splits from `splits` on that fits; one if none does.
pub open spec fn first_fit(work: SplitWork, splits: int, bar: (int, int)) -> int
    decreases split_limit(work) + 1 - splits,
{
    if splits > split_limit(work) {
        1
    } else if fits(work, splits, bar) {
        splits
    } else {
        first_fit(work, splits + 1, bar)
    }
}

/// Whether the device is busy without a split.
pub open spec fn is_saturated(work: SplitWork) -> bool {
    saturated(work.base_jobs * 5) >= saturated(work.execution_slots * 4)
}

/// The number of splits for some work.
pub open spec fn chosen_splits(work: SplitWork) -> int {
    if is_saturated(work) {
        1
    } else {
        first_fit(work, 1, rounded_product(share(), peak(work, split_limit(work))))
    }
}

/// The number of splits that attention of a shape is run with.
pub open spec fn planned_splits(
    batches: usize,
    query_tokens: usize,
    key_tokens: usize,
    query_heads: usize,
    head_dim: usize,
    multiprocessors: usize,
) -> int {
    if batches == 0 || query_tokens == 0 || key_tokens == 0 || query_heads == 0 || head_dim == 0
        || multiprocessors == 0 {
        1
    } else {
        chosen_splits(
            split_work(
                batches,
                query_tokens,
                key_tokens,
                query_heads,
                head_dim,
                multiprocessors,
            ),
        )
    }
}

proof fn lemma_skip(work: SplitWork, from: int, to: int, bar: (int, int))
    requires
        from <= to <= split_limit(work) + 1,
        forall|s: int| from <= s < to ==> !#[trigger] fits(work, s, bar),
    ensures
        first_fit(work, from, bar) == first_fit(work, to, bar),
    decreases to - from,
{
    if from < to {
        assert(!fits(work, from, bar));
        lemma_skip(work, from + 1, to, bar);
    }
}

/// An eligible number of splits and its utilization.
struct Candidate {
    splits: usize,
    utilization: Binary32,
}

/// The candidates up to `count` splits, in order, with none left out.
spec fn lists(work: SplitWork, candidates: Seq<Candidate>, count: int) -> bool {
    &&& candidates.len() >= 1
    &&& candidates[0].splits == 1
    &&& candidates.last().splits <= count
    &&& forall|i: int|
        0 <= i < candidates.len() ==> {
            &&& 1 <= (#[trigger] candidates[i]).splits <= count
            &&& eligible(work, candidates[i].splits as int)
            &&& candidates[i].utilization.wf()
            &&& candidates[i].utilization.parts() == utilization(
                work,
                candidates[i].splits as int,
            )
        }
    &&& forall|i: int, s: int|
        0 < i < candidates.len() && candidates[i - 1].splits < s < (
        #[trigger] candidates[i]).splits ==> !#[trigger] eligible(work, s)
    &&& forall|i: int|
        0 < i < candidates.len() ==> candidates[i - 1].splits < (#[trigger] candidates[i]).splits
    &&& forall|s: int|
        candidates.last().splits < s <= count ==> !#[trigger] eligible(work, s)
}

fn busy_share(work: &SplitWork, slots: Binary32, splits: usize) -> (result: Binary32)
    requires
        work.base_jobs > 0,
        work.execution_slots > 0,
        splits > 0,
        slots.wf(),
        slots.parts() == integer(work.execution_slots as int),
        -23 <= slots.exponent <= 41,
    ensures
        result.is_normal(),
        result.parts() == utilization(*work, splits as int),
{
    let jobs: usize = saturating_product(work.base_jobs, splits);
    assert(work.base_jobs * splits > 0) by (nonlinear_arith)
        requires
            work.base_jobs > 0,
            splits > 0,
    ;
    let waves = divide(from_integer(jobs as u64), slots);
    divide(waves, ceil(waves))
}

/// Choose split-KV parallelism from the logical work shape.
///
/// The occupancy policy follows the documented heuristic of FlashAttention
/// 2.7.4.post1 (BSD-3-Clause).
pub fn plan_fa2_split_count(
    batches: usize,
    query_tokens: usize,
    key_tokens: usize,
    query_heads: usize,
    head_dim: usize,
    multiprocessors: usize,
) -> (splits: usize)
    ensures
        splits == planned_splits(
            batches,
            query_tokens,
            key_tokens,
            query_heads,
            head_dim,
            multiprocessors,
        ),
        1 <= splits <= 128,
        forall|rows: int|
            64 * (rows - 1) < query_tokens <= 64 * rows && multiprocessors * 2 * 4 <= #[trigger] (
            batches * query_heads * rows * 5) <= usize::MAX ==> splits == 1,
{
    if batches == 0 || query_tokens == 0 || key_tokens == 0 || query_heads == 0 || head_dim == 0
        || multiprocessors == 0 {
        return 1;
    }
    let row_tiles: usize = tile_count(query_tokens, 64);
    let heads: usize = saturating_product(batches, query_heads);
    let work = SplitWork {
        base_jobs: saturating_product(heads, row_tiles),
        execution_slots: saturating_product(multiprocessors, 2),
        key_tiles: tile_count(key_tokens, key_tile_rows(head_dim)),
    };
    proof {
        assert(batches * query_heads > 0) by (nonlinear_arith)
            requires
                batches > 0,
                query_heads > 0,
        ;
        assert(heads * row_tiles > 0) by (nonlinear_arith)
            requires
                heads > 0,
                row_tiles > 0,
        ;
        assert(work == split_work(
            batches,
            query_tokens,
            key_tokens,
            query_heads,
            head_dim,
            multiprocessors,
        ));
        assert forall|rows: int|
            64 * (rows - 1) < query_tokens <= 64 * rows && multiprocessors * 2 * 4 <= #[trigger] (
            batches * query_heads * rows * 5) <= usize::MAX implies is_saturated(work) by {
            let all = batches * query_heads;
            assert(rows == row_tiles);
            assert(all <= all * rows <= all * rows * 5) by (nonlinear_arith)
                requires
                    all > 0,
                    rows >= 1,
            ;
        }
    }
    choose_splits(&work)
}

/// The number of splits for some work.
pub fn choose_splits(work: &SplitWork) -> (splits: usize)
    requires
        work.base_jobs > 0,
        work.execution_slots > 0,
        work.key_tiles > 0,
    ensures
        splits == chosen_splits(*work),
        1 <= splits <= 128,
{
    if saturating_product(work.base_jobs, 5) >= saturating_product(work.execution_slots, 4) {
        return 1;
    }
    let limit: usize = if work.key_tiles < work.execution_slots && work.key_tiles < 128 {
        work.key_tiles
    } else if work.execution_slots < 128 {
        work.execution_slots
    } else {
        128
    };
    assert(limit == split_limit(*work));
    let slots = from_integer(work.execution_slots as u64);
    let first = busy_share(work, slots, 1);
    let mut best = first;
    let mut candidates: Vec<Candidate> = Vec::new();
    candidates.push(Candidate { splits: 1, utilization: first });
    let mut count: usize = 1;
    let mut parts: usize = work.key_tiles;
    assert(tiles(work.key_tiles as int, 1) == work.key_tiles);
    while count < limit
        invariant
            1 <= count <= limit,
            limit <= 128,
            limit == split_limit(*work),
            work.base_jobs > 0,
            work.execution_slots > 0,
            slots.wf(),
            slots.parts() == integer(work.execution_slots as int),
            -23 <= slots.exponent <= 41,
            parts == tiles(work.key_tiles as int, count as int),
            best.is_normal(),
            best.parts() == peak(*work, count as int),
            lists(*work, candidates@, count as int),
        decreases limit - count,
    {
        let ghost before = candidates@;
        let splits: usize = count + 1;
        let shorter: usize = tile_count(work.key_tiles, splits);
        if shorter != parts {
            let share = busy_share(work, slots, splits);
            if !not_below(best, share) {
                best = share;
            }
            candidates.push(Candidate { splits, utilization: share });
            proof {
                assert(eligible(*work, splits as int));
                assert forall|i: int, s: int|
                    0 < i < candidates@.len() && candidates@[i - 1].splits < s < (
                    #[trigger] candidates@[i]).splits implies !#[trigger] eligible(*work, s) by {
                    if i == before.len() {
                        assert(candidates@[i - 1] == before.last());
                    } else {
                        assert(candidates@[i] == before[i]);
                        assert(candidates@[i - 1] == before[i - 1]);
                    }
                }
                assert forall|i: int|
                    0 < i < candidates@.len() implies candidates@[i - 1].splits < (
                #[trigger] candidates@[i]).splits by {
                    if i == before.len() {
                        assert(candidates@[i - 1] == before.last());
                    } else {
                        assert(candidates@[i] == before[i]);
                        assert(candidates@[i - 1] == before[i - 1]);
                    }
                }
            }
        } else {
            assert(!eligible(*work, splits as int));
        }
        parts = shorter;
        count = splits;
    }
    let bar = multiply(Binary32 { mantissa: 14260634, exponent: -24 }, best);
    let mut i: usize = 0;
    let ghost floor = bar.parts();
    while i < candidates.len()
        invariant
            i <= candidates.len(),
            limit <= 128,
            limit == split_limit(*work),
            lists(*work, candidates@, limit as int),
            floor == bar.parts(),
            chosen_splits(*work) == first_fit(*work, 1, floor),
            i > 0 ==> first_fit(*work, 1, floor) == first_fit(
                *work,
                candidates@[i - 1].splits + 1,
                floor,
            ),
        decreases candidates.len() - i,
    {
        proof {
            let here = candidates@[i as int].splits as int;
            if i > 0 {
                let last = candidates@[i - 1].splits as int;
                assert forall|s: int| last + 1 <= s < here implies !#[trigger] fits(
                    *work,
                    s,
                    floor,
                ) by {
                    assert(!eligible(*work, s));
                }
                lemma_skip(*work, last + 1, here, floor);
            }
        }
        if not_below(candidates[i].utilization, bar) {
            assert(fits(*work, candidates@[i as int].splits as int, floor));
            return candidates[i].splits;
        }
        assert(!fits(*work, candidates@[i as int].splits as int, floor));
        i = i + 1;
    }
    proof {
        let last = candidates@.last().splits as int;
        assert forall|s: int| last + 1 <= s < limit + 1 implies !#[trigger] fits(
            *work,
            s,
            floor,
        ) by {
            assert(!eligible(*work, s));
        }
        lemma_skip(*work, last + 1, limit + 1, floor);
    }
    1
}

proof fn lemma_share_is_below(a: (int, int))
    requires
        0x80_0000 <= a.0 < 0x100_0000,
    ensures
        at_least(a, rounded_product(share(), a)),
{
    let p = 14260634 * a.0;
    if p >= 0x8000_0000_0000 {
        let m = half_even(p, 0x100_0000);
        assert(m <= a.0);
    } else {
        let m = half_even(p, 0x80_0000);
        assert(m <= 0x100_0000);
    }
}

proof fn lemma_peak_is_reached(work: SplitWork, limit: int) -> (splits: int)
    requires
        limit >= 1,
    ensures
        1 <= splits <= limit,
        eligible(work, splits),
        peak(work, limit) == utilization(work, splits),
    decreases limit,
{
    if limit == 1 {
        1
    } else {
        let before = lemma_peak_is_reached(work, limit - 1);
        if eligible(work, limit) && peak(work, limit) == utilization(work, limit) {
            limit
        } else {
            before
        }
    }
}

proof fn lemma_first_fit(work: SplitWork, from: int, found: int, bar: (int, int))
    requires
        from <= found <= split_limit(work),
        fits(work, found, bar),
    ensures
        from <= first_fit(work, from, bar) <= found,
        fits(work, first_fit(work, from, bar), bar),
    decreases found - from,
{
    if !fits(work, from, bar) {
        lemma_first_fit(work, from + 1, found, bar);
    }
}

/// Work that does not fill the device is split into no more parts than there
/// are key tiles and slots, one split fewer would make the longest part longer, and the device
/// is at least 0.85 times as busy as it can be.
pub proof fn lemma_choice_is_efficient(work: SplitWork)
    requires
        work.base_jobs > 0,
        work.execution_slots > 0,
        work.key_tiles > 0,
        !is_saturated(work),
    ensures
        1 <= chosen_splits(work) <= split_limit(work),
        eligible(work, chosen_splits(work)),
        at_least(
            utilization(work, chosen_splits(work)),
            rounded_product(share(), peak(work, split_limit(work))),
        ),
{
    let limit = split_limit(work);
    let best = lemma_peak_is_reached(work, limit);
    let bar = rounded_product(share(), peak(work, limit));
    lemma_mantissa(work, best);
    lemma_share_is_below(utilization(work, best));
    lemma_first_fit(work, 1, best, bar);
}

/// No sequence is split into more parts than it has key tiles, nor into more
/// than 128.
pub proof fn lemma_planned_splits_are_bounded(
    batches: usize,
    query_tokens: usize,
    key_tokens: usize,
    query_heads: usize,
    head_dim: usize,
    multiprocessors: usize,
)
    requires
        key_tokens > 0,
    ensures
        ({
            let splits = planned_splits(
                batches,
                query_tokens,
                key_tokens,
                query_heads,
                head_dim,
                multiprocessors,
            );
            &&& 1 <= splits <= 128
            &&& splits <= tiles(key_tokens as int, key_tile(head_dim as int))
        }),
{
    lemma_tiles(key_tokens as int, key_tile(head_dim as int));
    if batches != 0 && query_tokens != 0 && query_heads != 0 && head_dim != 0 && multiprocessors
        != 0 {
        let work = split_work(
            batches,
            query_tokens,
            key_tokens,
            query_heads,
            head_dim,
            multiprocessors,
        );
        lemma_tiles(query_tokens as int, 64);
        let rows = tiles(query_tokens as int, 64);
        assert(batches * query_heads > 0) by (nonlinear_arith)
            requires
                batches > 0,
                query_heads > 0,
        ;
        let heads = saturated(batches * query_heads);
        assert(heads * rows > 0) by (nonlinear_arith)
            requires
                heads > 0,
                rows > 0,
        ;
        if !is_saturated(work) {
            lemma_choice_is_efficient(work);
        }
    }
}

proof fn lemma_nearest_mantissa(n: int, d: int, exponent: int)
    requires
        d > 0,
        0x80_0000 <= n / d < 0x100_0000,
    ensures
        0x80_0000 <= nearest(n, d, exponent).0 < 0x100_0000,
{
}

proof fn lemma_quotient_mantissa(a: (int, int), b: (int, int))
    requires
        0x80_0000 <= a.0 < 0x100_0000,
        0x80_0000 <= b.0 < 0x100_0000,
    ensures
        0x80_0000 <= quotient(a, b).0 < 0x100_0000,
{
    let x = a.0;
    let y = b.0;
    if x >= y {
        assert(0x80_0000 <= (x * 0x80_0000) / y < 0x100_0000) by (nonlinear_arith)
            requires
                x >= y,
                0x80_0000 <= y,
                x < 0x100_0000,
        ;
        lemma_nearest_mantissa(x * 0x80_0000, y, a.1 - b.1 - 23);
    } else {
        assert(0x80_0000 <= (x * 0x100_0000) / y < 0x100_0000) by (nonlinear_arith)
            requires
                x < y,
                0x80_0000 <= x,
                y < 0x100_0000,
        ;
        lemma_nearest_mantissa(x * 0x100_0000, y, a.1 - b.1 - 24);
    }
}

proof fn lemma_wide_mantissa(n: int, d: int, exponent: int)
    requires
        d > 0,
        n / d >= 0x80_0000,
    ensures
        0x80_0000 <= super::binary32::wide_integer(n, d, exponent).0 < 0x100_0000,
    decreases n / d,
{
    if n / d >= 0x100_0000 {
        super::binary32::lemma_halved(n, d);
        lemma_wide_mantissa(n, 2 * d, exponent + 1);
    } else {
        lemma_nearest_mantissa(n, d, exponent);
    }
}

proof fn lemma_integer_mantissa(n: int)
    ensures
        0x80_0000 <= integer(n).0 < 0x100_0000,
    decreases
            (if n < 0x80_0000 {
                0x80_0000 - n
            } else {
                0
            }),
{
    if n >= 0x80_0000 {
        lemma_wide_mantissa(n, 1, 0);
    } else if n > 0 {
        lemma_integer_mantissa(2 * n);
    }
}

proof fn lemma_mantissa(work: SplitWork, splits: int)
    ensures
        0x80_0000 <= utilization(work, splits).0 < 0x100_0000,
{
    let w = waves(work, splits);
    lemma_integer_mantissa(saturated(work.base_jobs * splits));
    lemma_integer_mantissa(work.execution_slots as int);
    lemma_quotient_mantissa(
        integer(saturated(work.base_jobs * splits)),
        integer(work.execution_slots as int),
    );
    assert(0x80_0000 <= ceiling(w).0 < 0x100_0000) by {
        if w.1 < 0 {
            if w.1 <= -24 {
                lemma_integer_mantissa(1);
            } else {
                let unit = vstd::arithmetic::power2::pow2((-w.1) as nat) as int;
                lemma_integer_mantissa((w.0 + unit - 1) / unit);
            }
        }
    }
    lemma_quotient_mantissa(w, ceiling(w));
}

proof fn lemma_peak_is_greatest(work: SplitWork, limit: int, splits: int)
    requires
        1 <= splits <= limit,
        eligible(work, splits),
    ensures
        at_least(peak(work, limit), utilization(work, splits)),
    decreases limit,
{
    if limit > 1 {
        if splits < limit {
            lemma_peak_is_greatest(work, limit - 1, splits);
        }
    }
}

proof fn lemma_none_fits_before(work: SplitWork, from: int, bar: (int, int), splits: int)
    requires
        from <= splits < first_fit(work, from, bar),
    ensures
        !fits(work, splits, bar),
    decreases split_limit(work) + 1 - from,
{
    if from <= split_limit(work) && !fits(work, from, bar) && from < splits {
        lemma_none_fits_before(work, from + 1, bar, splits);
    }
}

/// The share of busy slots that a number of splits leads to: the jobs in waves over the slots,
/// by the whole waves that they take, each step in 32-bit floats.
#[derive(Clone, Copy, Debug, PartialEq, Eq, Structural)]
pub struct BusyShare {
    pub jobs: Binary32,
    pub slots: Binary32,
    pub waves: Binary32,
    pub whole: Binary32,
    pub share: Binary32,
}

impl BusyShare {
    /// Whether the share was computed for `splits` splits of the given work.
    pub open spec fn is_of(self, work: SplitWork, splits: int) -> bool {
        &&& call_ensures(from_integer, ((work.base_jobs * splits) as u64,), self.jobs)
        &&& call_ensures(from_integer, (work.execution_slots as u64,), self.slots)
        &&& call_ensures(divide, (self.jobs, self.slots), self.waves)
        &&& call_ensures(ceil, (self.waves,), self.whole)
        &&& call_ensures(divide, (self.waves, self.whole), self.share)
    }
}

/// Whether the longest of `splits` parts is shorter than the longest of one part fewer.
pub open spec fn gains(key_tiles: int, splits: int) -> bool {
    splits == 1 || exists|longest: int, before: int| #[trigger]
        cuts(key_tiles, splits, longest) && #[trigger] cuts(key_tiles, splits - 1, before)
            && longest < before
}

/// Whether the longest of `parts` parts of `n` things has `longest` of them.
pub open spec fn cuts(n: int, parts: int, longest: int) -> bool {
    parts * (longest - 1) < n <= parts * longest
}

proof fn lemma_cuts(n: int, parts: int, longest: int)
    requires
        n > 0,
        parts > 0,
    ensures
        cuts(n, parts, longest) <==> longest == tiles(n, parts),
{
    let count = tiles(n, parts);
    assert(parts * (count - 1) < n <= parts * count) by (nonlinear_arith)
        requires
            count == (n + parts - 1) / parts,
            parts > 0,
    ;
    if cuts(n, parts, longest) {
        assert(longest == count) by (nonlinear_arith)
            requires
                parts * (count - 1) < n <= parts * count,
                parts * (longest - 1) < n <= parts * longest,
                parts > 0,
        ;
    }
}

proof fn lemma_gains(work: SplitWork, splits: int)
    requires
        work.key_tiles > 0,
        splits >= 1,
    ensures
        gains(work.key_tiles as int, splits) <==> eligible(work, splits),
{
    let n = work.key_tiles as int;
    if splits > 1 {
        let (now, before) = (tiles(n, splits), tiles(n, splits - 1));
        lemma_cuts(n, splits, now);
        lemma_cuts(n, splits - 1, before);
        assert(now <= before) by (nonlinear_arith)
            requires
                splits * (now - 1) < n,
                n <= (splits - 1) * before,
                splits > 1,
                before >= 0,
        ;
        if eligible(work, splits) {
            assert(cuts(n, splits, now) && cuts(n, splits - 1, before));
        }
        if gains(n, splits) {
            let (a, b) = choose|a: int, b: int|
                #[trigger] cuts(n, splits, a) && #[trigger] cuts(n, splits - 1, b) && a < b;
            lemma_cuts(n, splits, a);
            lemma_cuts(n, splits - 1, b);
        }
    }
}

/// Work that leaves slots idle is split into the least number of parts that gains from its last
/// split and keeps the device at least 0.85 times as busy as the best such number does. No
/// number above the key tiles, the slots or 128 is tried.
pub proof fn lemma_least_busy_enough_split_is_chosen(
    work: SplitWork,
    splits: usize,
    busy: spec_fn(int) -> BusyShare,
    best: int,
    factor: Binary32,
    bar: Binary32,
    other: int,
    reaches: bool,
    other_reaches: bool,
)
    requires
        call_ensures(choose_splits, (&work,), splits),
        work.base_jobs > 0,
        work.execution_slots > 0,
        work.key_tiles > 0,
        work.base_jobs * 5 < work.execution_slots * 4,
        work.base_jobs * 128 <= usize::MAX,
        work.execution_slots * 4 <= usize::MAX,
        forall|t: int| 1 <= t <= 128 ==> (#[trigger] busy(t)).is_of(work, t),
        1 <= best <= 128 && best <= work.key_tiles && best <= work.execution_slots,
        gains(work.key_tiles as int, best),
        1 <= other <= 128 && other <= work.key_tiles && other <= work.execution_slots,
        gains(work.key_tiles as int, other),
        forall|t: int|
            1 <= t <= 128 && t <= work.key_tiles && t <= work.execution_slots && gains(
                work.key_tiles as int,
                t,
            ) ==> call_ensures(not_below, (busy(best).share, (#[trigger] busy(t)).share), true),
        call_ensures(
            multiply,
            (factor, busy(best).share),
            bar,
        ),
        factor.exponent == -24,
        -20 < 2 * (17 * 0x100_0000 - 20 * factor.mantissa) < 20,
        call_ensures(not_below, (busy(splits as int).share, bar), reaches),
        call_ensures(not_below, (busy(other).share, bar), other_reaches),
    ensures
        1 <= splits <= 128 && splits <= work.key_tiles && splits <= work.execution_slots,
        gains(work.key_tiles as int, splits as int),
        reaches,
        other < splits ==> !other_reaches,
{
    let limit = split_limit(work);
    lemma_choice_is_efficient(work);
    let s = splits as int;
    lemma_gains(work, s);
    lemma_gains(work, best);
    lemma_gains(work, other);
    lemma_share_parts(work, s, busy(s));
    lemma_share_parts(work, best, busy(best));
    lemma_share_parts(work, other, busy(other));
    let top = lemma_peak_is_reached(work, limit);
    lemma_gains(work, top);
    lemma_share_parts(work, top, busy(top));
    lemma_peak_is_greatest(work, limit, best);
    assert(at_least(utilization(work, best), utilization(work, top)));
    assert(utilization(work, best) == peak(work, limit));
    assert(factor.mantissa == 14260634);
    assert(bar.parts() == rounded_product(share(), peak(work, limit)));
    if other < s {
        lemma_none_fits_before(work, 1, bar.parts(), other);
    }
}

proof fn lemma_share_parts(work: SplitWork, splits: int, share: BusyShare)
    requires
        share.is_of(work, splits),
        work.base_jobs > 0,
        1 <= splits <= 128,
        work.base_jobs * 128 <= usize::MAX,
    ensures
        share.share.parts() == utilization(work, splits),
{
    let jobs = work.base_jobs * splits;
    assert(0 < jobs <= work.base_jobs * 128) by (nonlinear_arith)
        requires
            work.base_jobs > 0,
            1 <= splits <= 128,
            jobs == work.base_jobs * splits,
    ;
}

} // verus!
